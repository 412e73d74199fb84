use sift::preview::{
    bat_cmd, has_macchiato, is_binary_content, is_image, on_bat, on_file, on_head, on_image, render,
    sanitize_control_chars, utf8_seq_len, Preview, PreviewLine, PreviewSpan, PreviewStep,
    BINARY_SCAN_BYTES, FALLBACK_MAX_BYTES, PREVIEW_MAX_BYTES,
};

/// The text of a preview; a picture has none.
fn text_of(p: &Preview) -> String {
    match p {
        Preview::Text(lines) => lines
            .iter()
            .map(|l| l.spans.iter().map(|s| s.text.as_str()).collect::<String>())
            .collect::<Vec<String>>()
            .join("\n"),
        Preview::Image { .. } => String::new(),
    }
}

/// The preview of a file with these contents, where `bat` prints what `bat` gives.
fn preview_of(
    path: &str,
    content: Result<&[u8], &str>,
    bat: &dyn Fn(&[u8]) -> Option<Vec<u8>>,
) -> Preview {
    let mut step = render(path, 80, 24, false);
    loop {
        step = match step {
            PreviewStep::Done(p) => return p,
            PreviewStep::PrepareImage { .. } => return on_image(None),
            PreviewStep::ReadHead => {
                let all = content.unwrap_or(b"");
                on_head(all[..all.len().min(PREVIEW_MAX_BYTES + 1)].to_vec())
            }
            PreviewStep::RunBat { input, cut } => on_bat(bat(&input), cut),
            PreviewStep::ReadFile { mark } => {
                return on_file(content.map(|b| b.to_vec()).map_err(|e| e.to_string()), mark)
            }
        };
    }
}

fn no_bat(_: &[u8]) -> Option<Vec<u8>> {
    None
}

fn cat(input: &[u8]) -> Option<Vec<u8>> {
    Some(input.to_vec())
}

#[test]
fn renders_file_with_bat_or_fallback() {
    let content = b"hello sift\nsecond line\n";
    for p in [
        preview_of("/d/demo.txt", Ok(content), &no_bat),
        preview_of("/d/demo.txt", Ok(content), &cat),
    ] {
        let joined = text_of(&p);
        assert!(joined.contains("hello sift"), "got: {joined}");
    }
}

#[test]
fn binary_file_shows_hint() {
    let p = preview_of("/d/blob.bin", Ok(b"PK\x00\x01binarystuff"), &cat);
    let joined = text_of(&p);
    assert!(joined.contains("二进制文件"), "got: {joined}");
}

#[test]
fn huge_file_is_truncated() {
    let line = "0123456789abcdef\n";
    let mut content = String::new();
    while content.len() < PREVIEW_MAX_BYTES + 4096 {
        content.push_str(line);
    }
    let p = preview_of("/d/huge.log", Ok(content.as_bytes()), &|b: &[u8]| {
        assert!(b.len() <= PREVIEW_MAX_BYTES);
        Some(b[..1000].to_vec())
    });
    let joined = text_of(&p);
    assert!(joined.contains("已截断"), "marker missing");
}

#[test]
fn image_file_shows_hint() {
    let p = preview_of("/d/photo.PNG", Ok(b"no nul bytes in this fake image"), &cat);
    let joined = text_of(&p);
    assert!(joined.contains("图片"), "got: {joined}");
    assert!(!joined.contains("no nul bytes"), "got: {joined}");
}

#[test]
fn control_chars_never_reach_output() {
    let mut data: Vec<u8> = (1u8..=255).collect();
    data.extend_from_slice(b"\x1b[31m\x0e\x0f\x07\x08\x0c\r\ttail");
    for p in [
        preview_of("/d/weird.dat", Ok(&data), &cat),
        preview_of("/d/weird.dat", Ok(b"a\x1b[31m\x0e\x0f\x07\x08\x0c\r\ttail and more text"), &cat),
        preview_of("/d/weird.dat", Ok(b"a\x1b[31m\x0e\x0f\x07\x08\x0c\r\ttail and more text"), &no_bat),
        on_file(Ok(data), true),
    ] {
        for c in text_of(&p).chars() {
            assert!(
                !c.is_control() || c == '\n',
                "control char U+{:04X} leaked into preview",
                c as u32
            );
        }
    }
}

#[test]
fn missing_file_does_not_panic() {
    let p = preview_of("/nonexistent/path/xyz.txt", Err("no such file"), &no_bat);
    let joined = text_of(&p);
    assert!(!joined.is_empty());
    assert_eq!(joined, "无法读取文件: no such file");
}

#[test]
fn nul_free_high_entropy_shows_binary_hint() {
    let mut x: u32 = 0x1234_5678;
    let mut data = Vec::with_capacity(4096);
    while data.len() < 4096 {
        x ^= x << 13;
        x ^= x >> 17;
        x ^= x << 5;
        for b in x.to_le_bytes() {
            if b != 0 {
                data.push(b);
            }
        }
    }
    assert!(!data.contains(&0));
    let joined = text_of(&preview_of("/d/tile.dat", Ok(&data), &cat));
    assert!(joined.contains("二进制文件"), "{joined}");
}

#[test]
fn text_with_few_stray_bytes_is_not_binary() {
    let mut data = Vec::new();
    for i in 0..2000usize {
        if i % 100 == 0 {
            data.push(0xe9u8);
        } else {
            data.push(b'a' + (i % 26) as u8);
        }
    }
    assert!(!is_binary_content(&data));
    let joined = text_of(&preview_of("/d/notes.txt", Ok(&data), &cat));
    assert!(!joined.contains("二进制文件"), "{joined}");
}

#[test]
fn text_of_any_script_is_not_binary() {
    for text in ["搜索文件", "ñandú\tß\r\n", "\u{80}\u{7ff}\u{800}\u{ffff}", "\u{10000}\u{10ffff}", "é"] {
        assert!(!is_binary_content(text.as_bytes()), "{text}");
    }
}

#[test]
fn more_than_a_fifth_is_binary() {
    assert!(!is_binary_content(b""));
    assert!(!is_binary_content(b"abcd\x01"));
    assert!(is_binary_content(b"abc\x01"));
    assert!(is_binary_content(b"abcdefghij\x00"));
    assert!(!is_binary_content("中文搜索".as_bytes()));
    // a character that is cut counts byte for byte
    assert!(!is_binary_content(b"abcdefgh\xe4\xb8"));
    assert!(is_binary_content(b"abcdefg\xe4\xb8"));
    for b in 0..=255u8 {
        let len = utf8_seq_len(b);
        let want = match b {
            0xc2..=0xdf => 2,
            0xe0..=0xef => 3,
            0xf0..=0xf4 => 4,
            _ => 0,
        };
        assert_eq!(len, want);
    }
}

#[test]
fn only_the_start_is_scanned() {
    let mut data = vec![b'a'; BINARY_SCAN_BYTES];
    data.push(0);
    assert!(matches!(on_head(data), PreviewStep::RunBat { cut: false, .. }));
    let mut data = vec![b'a'; BINARY_SCAN_BYTES - 1];
    data.push(0);
    assert!(matches!(on_head(data), PreviewStep::Done(_)));
}

#[test]
fn bat_gets_whole_characters() {
    let mut data = vec![b'a'; PREVIEW_MAX_BYTES - 1];
    data.extend_from_slice("中".as_bytes());
    data.truncate(PREVIEW_MAX_BYTES + 1);
    match on_head(data) {
        PreviewStep::RunBat { input, cut } => {
            assert_eq!(input.len(), PREVIEW_MAX_BYTES - 1);
            assert!(cut);
        }
        s => panic!("{s:?}"),
    }
    assert!(matches!(on_head(Vec::new()), PreviewStep::ReadFile { mark: false }));
}

#[test]
fn bat_output_is_read_with_its_colours() {
    match on_bat(Some(b"\x1b[31mred\x1b[0m plain\n\x1b[1mb\tc".to_vec()), false) {
        PreviewStep::Done(Preview::Text(lines)) => {
            assert_eq!(lines.len(), 2);
            let red = lines[0].spans.iter().find(|s| s.text == "red").unwrap();
            assert_eq!(red.fg.as_deref(), Some("Red"));
            let bold = lines[1].spans.iter().find(|s| s.text.contains('c')).unwrap();
            assert_eq!(bold.text, "b    c");
            assert_eq!(bold.added, ratatui::style::Modifier::BOLD.bits());
        }
        s => panic!("{s:?}"),
    }
    assert!(matches!(on_bat(Some(Vec::new()), true), PreviewStep::ReadFile { mark: false }));
    assert!(matches!(on_bat(None, true), PreviewStep::ReadFile { mark: false }));
}

#[test]
fn the_mark_is_italic() {
    match on_bat(Some(b"x".to_vec()), true) {
        PreviewStep::Done(Preview::Text(lines)) => {
            let last = &lines.last().unwrap().spans[0];
            assert_eq!(last.text, "…… 文件过大，预览已截断 ……");
            assert_eq!(last.added, ratatui::style::Modifier::ITALIC.bits());
        }
        s => panic!("{s:?}"),
    }
}

#[test]
fn plain_files_are_shown_up_to_a_limit() {
    let data = vec![b'x'; FALLBACK_MAX_BYTES + 5];
    assert_eq!(text_of(&on_file(Ok(data), false)).len(), FALLBACK_MAX_BYTES);
    assert_eq!(text_of(&on_file(Ok(b"a\xffb\r\nc".to_vec()), false)), "a\u{FFFD}b\nc");
}

#[test]
fn bat_command_is_exact() {
    let cmd = bat_cmd("/a b.rs", 5, true);
    assert_eq!(cmd.program, "bat");
    assert_eq!(
        cmd.args,
        [
            "--paging=never",
            "--color=always",
            "--style=numbers",
            "--theme=Catppuccin Macchiato",
            "--wrap=character",
            "--terminal-width",
            "10",
            "--line-range",
            ":5000",
            "--file-name",
            "/a b.rs",
        ]
    );
    assert_eq!(bat_cmd("x", 120, false).args.len(), 10);
    assert!(has_macchiato(b"\xff Catppuccin Macchiato\n"));
    assert!(!has_macchiato(b"Catppuccin Mocha"));
}

#[test]
fn pictures_are_told_by_their_extension() {
    assert!(is_image("/a/b.jpeg"));
    assert!(is_image("X.HDR"));
    assert!(!is_image("/a/png"));
    assert!(!is_image("/a/.png"));
    assert!(!is_image("/a.png/b"));
    assert!(matches!(
        render("a.gif", 0, 3, true),
        PreviewStep::PrepareImage { cols: 1, rows: 3 }
    ));
    assert_eq!(text_of(&on_image(None)), "（图片文件，无法解码预览）");
    assert!(matches!(on_image(Some(vec![7])), Preview::Image { transmit } if transmit == [7]));
}

#[test]
fn control_characters_are_taken_out() {
    let span = |text: &str| PreviewSpan {
        text: text.to_string(),
        fg: None,
        bg: None,
        underline: None,
        added: 1,
        removed: 2,
    };
    let lines = vec![PreviewLine { spans: vec![span("a\tb\u{1b}\u{9b}c\n"), span("ok")] }];
    let r = sanitize_control_chars(&lines);
    assert_eq!(r[0].spans[0].text, "a    bc\n");
    assert_eq!(r[0].spans[1].text, "ok");
    assert_eq!((r[0].spans[0].added, r[0].spans[0].removed), (1, 2));
}
