use sift::app::{
    expand_tilde, is_written_as_size, show_path, Action, App, DirCheck, Effect, Msg, PathCheck,
    PopupKind, SizeLimit,
};
use sift::clipboard::{copy, CopyErr, CopyStep};
use sift::jobs::{fd_search_job, rg_stream, FileSearchStart, LineOutcome};
use sift::keys::{KeyCode, KeyEvent, KeyEventKind, KeyModifiers};
use sift::preview::{show_plain, Preview};
use sift::search::{path_priority, SearchMode, SearchResultItem};
use sift::state::{CachedPreview, FileList};
use std::sync::Arc;

fn strings(v: &[&str]) -> Vec<String> {
    v.iter().map(|s| s.to_string()).collect()
}

fn ten() -> SizeLimit {
    SizeLimit { text: "10".to_string(), bytes: 10485760 }
}

fn app_at(dir: &str) -> App {
    let mut app = App::new(Some(dir.to_string()), Some("/home/heng".to_string()), Vec::new(), ten());
    app.config_path = None;
    app
}

fn new_app() -> App {
    app_at("/home/heng/src")
}

/// A small tree of directories and files that the paths are looked up in.
const DIRS: [&str; 6] = ["/", "/tmp", "/home", "/etc", "/usr", "/locked"];
const FILES: [&str; 1] = ["/tmp/file"];

fn canonical(path: &str) -> String {
    let mut parts: Vec<&str> = Vec::new();
    for p in path.split('/') {
        match p {
            "" | "." => {}
            ".." => {
                parts.pop();
            }
            p => parts.push(p),
        }
    }
    format!("/{}", parts.join("/"))
}

fn megabytes(raw: &str) -> Option<SizeLimit> {
    let v: f64 = raw.parse().ok()?;
    if !v.is_finite() || v <= 0.0 {
        return None;
    }
    Some(SizeLimit { text: format!("{v}"), bytes: (v * 1048576.0) as u64 })
}

/// Performs the effects, searches and previews left out, and gives the paths that were saved to.
fn drive(app: &mut App) -> Vec<String> {
    let mut saved = Vec::new();
    loop {
        let effects = app.take_effects();
        if effects.is_empty() {
            return saved;
        }
        for e in effects {
            match e {
                Effect::CheckPath { raw, expanded } => {
                    let c = canonical(&expanded);
                    let check = if c == "/locked" {
                        PathCheck::Unreadable("denied".to_string())
                    } else if DIRS.contains(&c.as_str()) {
                        PathCheck::Dir(c)
                    } else if FILES.contains(&c.as_str()) {
                        PathCheck::NotDir
                    } else if expanded.contains('\0') {
                        PathCheck::Failed("nul byte".to_string())
                    } else {
                        PathCheck::NotFound
                    };
                    app.on_path_checked(&raw, check);
                }
                Effect::CheckDirs { dirs } => {
                    let checks = dirs
                        .into_iter()
                        .map(|d| {
                            let c = canonical(&d.expanded);
                            let check = if DIRS.contains(&c.as_str()) {
                                DirCheck::Dir(c)
                            } else if FILES.contains(&c.as_str()) {
                                DirCheck::NotDir
                            } else {
                                DirCheck::Missing
                            };
                            (d.part, check)
                        })
                        .collect();
                    app.on_dirs_checked(checks);
                }
                Effect::ReadSize { raw } => {
                    let limit = megabytes(&raw);
                    app.on_size_read(&raw, limit);
                }
                Effect::SaveConfig { path } => saved.push(path),
                Effect::CopyPath { .. } => {
                    let mut tried: Vec<Result<(), CopyErr>> = Vec::new();
                    loop {
                        match copy(&tried) {
                            CopyStep::Try(_) => tried.push(Err(CopyErr::NotFound)),
                            CopyStep::Done(r) => {
                                app.on_copied(r);
                                break;
                            }
                        }
                    }
                }
                _ => {}
            }
        }
    }
}

fn text_preview(s: &str) -> Arc<Preview> {
    Arc::new(show_plain(s, false))
}

fn item(path: &str, display: &str, score: i64) -> SearchResultItem {
    SearchResultItem {
        path: path.to_string(),
        display: display.to_string(),
        matches: 1,
        score,
        priority: path_priority(path),
    }
}

fn key(code: KeyCode) -> KeyEvent {
    KeyEvent::new(code, KeyModifiers::none())
}

fn ctrl(c: char) -> KeyEvent {
    KeyEvent::new(KeyCode::Char(c), KeyModifiers::control())
}

fn alt(c: char) -> KeyEvent {
    KeyEvent::new(KeyCode::Char(c), KeyModifiers::alt())
}

fn enter() -> KeyEvent {
    key(KeyCode::Enter)
}

fn shift_enter() -> KeyEvent {
    KeyEvent::new(KeyCode::Enter, KeyModifiers::shift())
}

fn esc() -> KeyEvent {
    key(KeyCode::Esc)
}

fn ctrl_c() -> KeyEvent {
    ctrl('c')
}

#[test]
fn enter_while_searching_cancels_and_restarts() {
    let mut app = new_app();
    app.input = "test".to_string();
    app.searching = true;
    let gen = app.search_gen;
    app.on_key(enter());
    assert!(app.search_gen > gen);
    assert!(app.searching);
    assert_eq!(app.last_query, "test");
}

#[test]
fn tab_while_searching_toggles_and_restarts() {
    let mut app = new_app();
    app.input = "test".to_string();
    app.searching = true;
    let gen = app.search_gen;
    let mode = app.mode;
    app.on_key(key(KeyCode::Tab));
    assert_ne!(app.mode, mode);
    assert!(app.search_gen > gen);
}

#[test]
fn esc_cancels_search_or_quits() {
    let mut app = new_app();
    app.searching = true;
    app.on_key(esc());
    assert!(!app.should_quit);
    assert!(!app.searching);

    app.on_key(esc());
    assert!(app.should_quit);
}

#[test]
fn ctrl_c_copies_path_and_never_quits() {
    let mut app = new_app();
    app.on_key(ctrl_c());
    drive(&mut app);
    assert!(!app.should_quit);
    assert!(app.status.is_some());

    let mut app = new_app();
    app.results = vec![item("/home/heng/test.sh", "home/heng/test.sh", 10)];
    app.list_state.select(Some(0));
    app.on_key(ctrl_c());
    assert!(matches!(
        app.effects.last(),
        Some(Effect::CopyPath { path }) if path == "/home/heng/test.sh"
    ));
    drive(&mut app);
    assert!(!app.should_quit);
    assert!(app.status.is_some());
}

#[test]
fn ctrl_c_does_not_cancel_search() {
    let mut app = new_app();
    app.searching = true;
    app.results = vec![item("/home/heng/test.sh", "home/heng/test.sh", 10)];
    app.list_state.select(Some(0));
    app.on_key(ctrl_c());
    drive(&mut app);
    assert!(app.searching);
    assert!(!app.should_quit);
}

#[test]
fn search_batch_resort_refreshes_preview() {
    let mut app = new_app();
    app.searching = true;
    app.results = vec![item("/usr/share/test.sh", "usr/share/test.sh", 1)];
    app.list_state.select(Some(0));
    app.preview = Some(text_preview("old content"));
    app.preview_path = Some("/usr/share/test.sh".to_string());

    let gen = app.search_gen;
    app.send(Msg::SearchBatch {
        gen,
        items: vec![item("/home/heng/test.sh", "home/heng/test.sh", 10)],
    });
    app.tick();

    assert_eq!(
        app.selected_item().map(|i| i.path.as_str()),
        Some("/home/heng/test.sh")
    );
    assert_eq!(app.preview_path.as_deref(), Some("/home/heng/test.sh"));
    assert!(app.preview.is_none());
    assert!(app.preview_loading);
}

#[test]
fn search_batch_same_selection_keeps_preview() {
    let mut app = new_app();
    app.searching = true;
    app.results = vec![item("/home/heng/test.sh", "home/heng/test.sh", 10)];
    app.list_state.select(Some(0));
    app.preview = Some(text_preview("current content"));
    app.preview_path = Some("/home/heng/test.sh".to_string());

    let gen = app.search_gen;
    app.send(Msg::SearchBatch {
        gen,
        items: vec![item("/usr/share/test.sh", "usr/share/test.sh", 1)],
    });
    app.tick();

    assert!(app.preview.is_some());
    assert!(!app.preview_loading);
}

#[test]
fn cancel_invalidates_inflight_batches() {
    let mut app = new_app();
    app.searching = true;
    let old_gen = app.search_gen;
    let stale = Msg::SearchBatch {
        gen: old_gen,
        items: vec![item("/home/heng/a.txt", "home/heng/a.txt", 5)],
    };
    app.on_key(esc());
    assert!(app.search_gen > old_gen);
    app.send(stale);
    app.tick();
    assert!(app.results.is_empty());
}

#[test]
fn confirm_path_rejects_slash_only_input() {
    let mut app = new_app();
    let original = app.current_path().clone();
    app.open_popup(PopupKind::Path);
    app.popup_input = "/////".to_string();
    app.on_key(enter());
    drive(&mut app);
    assert_eq!(app.popup, Some(PopupKind::Path));
    assert!(app.popup_error.is_some());
    assert_eq!(app.current_path(), &original);

    app.popup_input = "/".to_string();
    app.popup_error = None;
    app.on_key(enter());
    drive(&mut app);
    assert_eq!(app.popup, None);
    assert_eq!(app.current_path(), "/");
}

#[test]
fn confirm_path_rejects_nonexistent_and_file() {
    let mut app = new_app();
    app.open_popup(PopupKind::Path);

    app.popup_input = "/nonexistent/dir/xxxx".to_string();
    app.on_key(enter());
    drive(&mut app);
    assert_eq!(app.popup, Some(PopupKind::Path));
    assert!(app.popup_error.as_deref().unwrap().contains("路径不存在"));

    app.popup_input = "/tmp/file".to_string();
    app.popup_error = None;
    app.on_key(enter());
    drive(&mut app);
    assert_eq!(app.popup, Some(PopupKind::Path));
    assert!(app.popup_error.as_deref().unwrap().contains("不是目录"));
}

#[test]
fn every_path_error_has_its_words() {
    let mut app = new_app();
    app.open_popup(PopupKind::Path);
    for (raw, words) in [
        ("//", "路径无效: //"),
        ("/locked", "无法读取目录: /locked (denied)"),
        (" /tmp/file ", "不是目录: /tmp/file"),
        ("~/x", "路径不存在: ~/x"),
        ("/a\0b", "路径无效: /a\0b (nul byte)"),
    ] {
        app.popup_input = raw.to_string();
        app.on_key(enter());
        drive(&mut app);
        assert_eq!(app.popup_error.as_deref(), Some(words));
        assert_eq!(app.current_path(), "/home/heng/src");
    }
    // nothing to confirm
    app.popup_input = "  ".to_string();
    app.on_key(enter());
    assert_eq!(app.popup, None);
    assert!(app.popup_error.is_none());
}

#[test]
fn confirm_path_accepts_valid_dir_and_clears_error_on_edit() {
    let mut app = new_app();
    app.open_popup(PopupKind::Path);
    app.popup_input = "/nonexistent/xxxx".to_string();
    app.on_key(enter());
    drive(&mut app);
    assert!(app.popup_error.is_some());

    app.on_key(key(KeyCode::Char('x')));
    assert!(app.popup_error.is_none());

    app.popup_input = "/tmp/../tmp/".to_string();
    app.on_key(enter());
    drive(&mut app);
    assert_eq!(app.popup, None);
    assert_eq!(app.current_path(), "/tmp");
}

#[test]
fn path_popup_opens_with_select_all_and_typing_replaces() {
    let mut app = new_app();
    app.on_key(ctrl('p'));
    assert_eq!(app.popup, Some(PopupKind::Path));
    assert!(app.popup_select_all);
    assert_eq!(app.popup_input, app.current_path_display());

    app.on_key(key(KeyCode::Char('/')));
    assert_eq!(app.popup_input, "/");
    assert_eq!(app.popup_cursor, 1);
    assert!(!app.popup_select_all);

    app.on_key(key(KeyCode::Char('t')));
    assert_eq!(app.popup_input, "/t");
}

#[test]
fn popup_select_all_editing_and_movement() {
    let mut app = new_app();
    app.on_key(ctrl('p'));
    let old_len = app.popup_input.chars().count();

    app.on_key(key(KeyCode::Left));
    assert!(!app.popup_select_all);
    assert_eq!(app.popup_cursor, 0);
    assert_eq!(app.popup_input.chars().count(), old_len);

    app.popup_select_all = true;
    app.on_key(key(KeyCode::Backspace));
    assert!(app.popup_input.is_empty());
    assert_eq!(app.popup_cursor, 0);
    assert!(!app.popup_select_all);

    app.popup_input = "/old/path".to_string();
    app.popup_select_all = true;
    app.on_paste("/new/path");
    assert_eq!(app.popup_input, "/new/path");
    assert_eq!(app.popup_cursor, "/new/path".chars().count());
    assert!(!app.popup_select_all);
}

#[test]
fn maxsize_popup_input_filter_and_validation() {
    let mut app = new_app();
    app.config_path = Some("/cfg/ms.toml".to_string());
    app.open_popup(PopupKind::MaxSize);
    app.popup_select_all = false;
    app.popup_input.clear();
    app.popup_cursor = 0;
    app.on_key(key(KeyCode::Char('a')));
    assert!(!app.popup_input.contains('a'));

    app.popup_input = "0.2".to_string();
    app.on_key(enter());
    let saved = drive(&mut app);
    assert_eq!(saved, strings(&["/cfg/ms.toml"]));
    assert_eq!(app.popup, None);
    let mb: f64 = app.max_size.text.parse().unwrap();
    assert!((mb - 0.2).abs() < 1e-9);
    assert_eq!(app.max_size.bytes, 209715);

    for bad in ["0", "1.2.3", "."] {
        app.open_popup(PopupKind::MaxSize);
        app.popup_input = bad.to_string();
        app.on_key(enter());
        drive(&mut app);
        assert_eq!(app.popup, Some(PopupKind::MaxSize), "{bad}");
        assert_eq!(
            app.popup_error,
            Some(format!("无效大小: {bad}（示例：10 或 0.2）")),
            "{bad}"
        );
    }
}

#[test]
fn ignore_dirs_popup_validates_and_persists() {
    let mut app = new_app();
    app.config_path = Some("/cfg/ig.toml".to_string());
    app.open_popup(PopupKind::IgnoreDirs);

    app.popup_input = "/nonexistent/xxxx".to_string();
    app.on_key(enter());
    assert!(drive(&mut app).is_empty());
    assert_eq!(app.popup, Some(PopupKind::IgnoreDirs));
    assert_eq!(app.popup_error.as_deref(), Some("路径不存在: /nonexistent/xxxx"));

    app.popup_input = "/tmp\n/tmp/file".to_string();
    app.on_key(enter());
    drive(&mut app);
    assert_eq!(app.popup_error.as_deref(), Some("不是目录: /tmp/file"));
    assert!(app.ignore_dirs.is_empty());

    app.popup_input = " /tmp \n \n".to_string();
    app.popup_error = None;
    app.on_key(enter());
    let saved = drive(&mut app);
    assert_eq!(app.popup, None);
    assert_eq!(app.ignore_dirs, strings(&["/tmp"]));
    assert_eq!(saved, strings(&["/cfg/ig.toml"]));

    app.on_save_failed("disk full");
    assert_eq!(app.status.as_ref().unwrap().0, "配置保存失败: disk full");
}

#[test]
fn ignore_dirs_newline_separated() {
    let mut app = new_app();
    app.ignore_dirs = strings(&["/home", "/etc"]);

    app.open_popup(PopupKind::IgnoreDirs);
    assert_eq!(app.popup_input, "/home\n/etc");
    assert!(!app.popup_input.contains(','));

    app.popup_input = "/tmp\\n/tmp".to_string();
    app.popup_error = None;
    app.on_key(enter());
    drive(&mut app);
    assert_eq!(app.popup, None);
    assert_eq!(app.ignore_dirs, strings(&["/tmp"]));

}

#[test]
fn ignored_dirs_stand_once_in_their_order() {
    let mut app = new_app();
    app.open_popup(PopupKind::IgnoreDirs);
    app.popup_input = "/tmp\n/etc\n/tmp/".to_string();
    app.on_key(enter());
    drive(&mut app);
    assert_eq!(app.popup, None);
    assert_eq!(app.popup_error, None);
    assert_eq!(app.ignore_dirs, strings(&["/tmp", "/etc"]));
}

#[test]
fn ctrl_h_toggles_input_expand() {
    let mut app = new_app();
    assert!(app.input_expanded);
    app.input_scroll = 5;
    app.on_key(ctrl('h'));
    assert!(!app.input_expanded);
    assert_eq!(app.input_scroll, 0);
    app.on_key(ctrl('h'));
    assert!(app.input_expanded);
}

#[test]
fn shift_enter_inserts_newline_in_search_input() {
    let mut app = new_app();
    app.input = "foobar".to_string();
    app.cursor = 3;
    let gen = app.search_gen;
    app.on_key(shift_enter());
    assert_eq!(app.input, "foo\nbar");
    assert_eq!(app.cursor, 4);
    assert_eq!(app.search_gen, gen);

    app.on_key(enter());
    assert!(app.search_gen > gen);
}

#[test]
fn shift_enter_in_popups() {
    let mut app = new_app();
    app.open_popup(PopupKind::IgnoreDirs);
    app.popup_select_all = false;
    app.popup_input = "/home".to_string();
    app.popup_cursor = 5;
    app.on_key(shift_enter());
    assert_eq!(app.popup_input, "/home\n");
    assert_eq!(app.popup, Some(PopupKind::IgnoreDirs));

    let mut app2 = new_app();
    app2.open_popup(PopupKind::MaxSize);
    app2.popup_input = "5".to_string();
    app2.on_key(shift_enter());
    drive(&mut app2);
    assert_eq!(app2.popup, None);
    let mb: f64 = app2.max_size.text.parse().unwrap();
    assert!((mb - 5.0).abs() < 1e-9);
}

#[test]
fn popup_paste_newline_handling() {
    let mut app = new_app();
    app.open_popup(PopupKind::IgnoreDirs);
    app.popup_select_all = false;
    app.popup_input.clear();
    app.popup_cursor = 0;
    app.on_paste("/a\r\n/b\n/c");
    assert_eq!(app.popup_input, "/a\n/b\n/c");

    let mut app2 = new_app();
    app2.open_popup(PopupKind::Path);
    app2.popup_select_all = false;
    app2.popup_input.clear();
    app2.popup_cursor = 0;
    app2.on_paste("/a\n/b");
    assert_eq!(app2.popup_input, "/a/b");
}

#[test]
fn ctrl_i_s_open_popup_in_both_modes() {
    for mode in [SearchMode::FileName, SearchMode::Content] {
        let mut app = new_app();
        app.mode = mode;

        app.on_key(ctrl('i'));
        assert_eq!(app.popup, Some(PopupKind::IgnoreDirs), "mode={mode:?}");

        app.popup = None;
        app.on_key(ctrl('s'));
        assert_eq!(app.popup, Some(PopupKind::MaxSize), "mode={mode:?}");
    }
}

/// The files below `/r`, with their sizes.
const TREE: [(&str, u64); 4] = [
    ("/r/sub/test.sh", 7),
    ("/r/keep_test.sh", 7),
    ("/r/small_test.sh", 8),
    ("/r/big_test.sh", 3000),
];

/// Searches file names below `/r` and gives the names that were found; `fd` is played here, going
/// by the arguments that it is given.
fn run_filename_search(query: &str, ignore_dirs: &[&str], max_bytes: u64) -> Vec<String> {
    let mut app = app_at("/r");
    app.ignore_dirs = strings(ignore_dirs);
    app.max_size = SizeLimit { text: "x".to_string(), bytes: max_bytes };
    app.input = query.to_string();
    app.on_key(enter());
    for e in app.take_effects() {
        if let Effect::SearchFiles { gen, root, query, cached, excludes, max_bytes } = e {
            match fd_search_job(gen, root, query, cached, &excludes, max_bytes) {
                FileSearchStart::Done(msg) => app.send(msg),
                FileSearchStart::Run { cmd, mut search } => {
                    assert_eq!(cmd.args.last().unwrap(), "/r");
                    for (path, size) in TREE {
                        let out = cmd.args.windows(2).any(|w| {
                            w[0] == "--exclude" && path.starts_with(&format!("/r{}/", w[1]))
                        });
                        let big = cmd
                            .args
                            .windows(2)
                            .any(|w| w[0] == "--size" && w[1] == format!("-{max_bytes}b"))
                            && size > max_bytes;
                        if !out && !big {
                            assert!(search.on_line(path.to_string(), false));
                        }
                    }
                    app.send(search.finish(false).unwrap());
                }
            }
        }
    }
    app.tick();
    assert!(!app.searching);
    app.results
        .iter()
        .map(|i| i.path.rsplit('/').next().unwrap().to_string())
        .collect()
}

#[test]
fn filename_search_respects_user_ignore_dirs() {
    let names = run_filename_search("test.sh", &["/r/sub"], 10485760);
    assert!(!names.contains(&"test.sh".to_string()), "got {names:?}");
    assert!(names.contains(&"keep_test.sh".to_string()), "got {names:?}");

    let names = run_filename_search("test.sh", &[], 10485760);
    assert!(names.contains(&"test.sh".to_string()), "got {names:?}");
    assert!(names.contains(&"keep_test.sh".to_string()), "got {names:?}");
}

#[test]
fn filename_search_respects_max_filesize() {
    let names = run_filename_search("test.sh", &[], 1048);
    assert!(names.contains(&"small_test.sh".to_string()), "got {names:?}");
    assert!(!names.contains(&"big_test.sh".to_string()), "got {names:?}");

    let names = run_filename_search("test.sh", &[], 10485760);
    assert!(names.contains(&"small_test.sh".to_string()), "got {names:?}");
    assert!(names.contains(&"big_test.sh".to_string()), "got {names:?}");
}

#[test]
fn cancelled_name_search_sends_nothing() {
    let none: Vec<String> = Vec::new();
    match fd_search_job(3, "/r".to_string(), "q".to_string(), None, &none, 1) {
        FileSearchStart::Run { mut search, .. } => {
            assert!(search.on_line("/r/q".to_string(), false));
            assert!(!search.on_line("/r/qq".to_string(), true));
            assert!(search.finish(false).is_none());
        }
        FileSearchStart::Done(_) => panic!(),
    }
    // stopped between the last line and the end of the output
    for (stopped, sent) in [(true, false), (false, true)] {
        match fd_search_job(3, "/r".to_string(), "q".to_string(), None, &none, 1) {
            FileSearchStart::Run { mut search, .. } => {
                assert!(search.on_line("/r/q".to_string(), false));
                assert_eq!(search.finish(stopped).is_some(), sent);
            }
            FileSearchStart::Done(_) => panic!(),
        }
    }
    let kept = Some(Arc::new(strings(&["/r/q"])));
    match fd_search_job(3, "/r".to_string(), "q".to_string(), kept, &none, 1) {
        FileSearchStart::Done(Msg::SearchDone { gen, content, items, new_file_list }) => {
            assert_eq!((gen, content, items.len()), (3, false, 1));
            assert!(new_file_list.is_none());
        }
        _ => panic!(),
    }
}

#[test]
fn content_results_come_in_batches() {
    let none: Vec<String> = Vec::new();
    let (cmd, mut search) = rg_stream(7, "/r".to_string(), "q", &none, 9, 1000);
    assert_eq!(cmd.program, "rg");
    // sooner than the interval and fewer than a batch
    assert!(matches!(search.on_line("./a:1", false, 1015), LineOutcome::Continue));
    // the interval has passed
    match search.on_line("no result", false, 1016) {
        LineOutcome::Send(Msg::SearchBatch { gen, items }) => {
            assert_eq!((gen, items.len()), (7, 1));
        }
        o => panic!("{o:?}"),
    }
    // a full batch goes at once
    for i in 0..99 {
        assert!(matches!(
            search.on_line(&format!("./f{i}:1"), false, 1016),
            LineOutcome::Continue
        ));
    }
    match search.on_line("./last:1", false, 1016) {
        LineOutcome::Send(Msg::SearchBatch { items, .. }) => assert_eq!(items.len(), 100),
        o => panic!("{o:?}"),
    }
    assert!(matches!(search.on_line("./rest:2", false, 1016), LineOutcome::Continue));
    assert!(matches!(search.on_line("./more:2", true, 1016), LineOutcome::Stop));
    let (rest, end) = search.finish();
    assert!(matches!(rest, Some(Msg::SearchBatch { items, .. }) if items.len() == 1));
    assert!(matches!(end, Msg::SearchDone { gen: 7, content: true, .. }));
}

#[test]
fn a_search_takes_the_input() {
    let mut app = new_app();
    app.input = "  a b \n".to_string();
    app.on_key(enter());
    assert_eq!(app.last_query, "  a b \n");
    match app.take_effects().pop() {
        Some(Effect::SearchFiles { gen, root, query, cached, excludes, max_bytes }) => {
            assert_eq!(gen, app.search_gen);
            assert_eq!(root, "/home/heng/src");
            assert_eq!(query, "a b");
            assert!(cached.is_none());
            assert!(excludes.is_empty());
            assert_eq!(max_bytes, 10485760);
        }
        e => panic!("{e:?}"),
    }
    app.mode = SearchMode::Content;
    app.on_key(enter());
    match app.take_effects().pop() {
        Some(Effect::SearchContent { query, globs, .. }) => {
            assert_eq!(query, "a b");
            assert_eq!(globs, strings(&["!.git"]));
        }
        e => panic!("{e:?}"),
    }
    // an empty search removes the results
    app.results = vec![item("/a", "a", 1)];
    app.input = " ".to_string();
    app.on_key(enter());
    assert!(app.results.is_empty());
    assert!(!app.searching);
}

#[test]
fn file_lists_are_kept_for_a_minute() {
    let mut app = new_app();
    app.set_clock(1000);
    app.file_lists.push(FileList {
        root: "/home/heng/src/.".to_string(),
        made: 1000,
        files: Arc::new(strings(&["/home/heng/src/a"])),
    });
    app.input = "a".to_string();
    app.set_clock(60999);
    app.on_key(enter());
    assert!(matches!(
        app.take_effects().pop(),
        Some(Effect::SearchFiles { cached: Some(_), .. })
    ));
    app.set_clock(61000);
    app.on_key(enter());
    assert!(matches!(
        app.take_effects().pop(),
        Some(Effect::SearchFiles { cached: None, .. })
    ));
}

#[test]
fn settings_drop_lists_and_search_again() {
    let mut app = new_app();
    app.last_query = "q".to_string();
    app.input = "q".to_string();
    app.file_lists.push(FileList {
        root: "/x".to_string(),
        made: 0,
        files: Arc::new(Vec::new()),
    });
    let gen = app.search_gen;
    app.open_popup(PopupKind::MaxSize);
    app.popup_input = "7".to_string();
    app.on_key(enter());
    drive(&mut app);
    assert!(app.file_lists.is_empty());
    assert!(app.search_gen > gen);
    assert!(app.searching);
}

#[test]
fn results_are_walked_and_previewed() {
    let mut app = new_app();
    app.preview_width = 40;
    let gen = app.search_gen;
    app.searching = true;
    app.send(Msg::SearchDone {
        gen,
        content: false,
        items: vec![item("/a", "a", 3), item("/b", "b", 2), item("/c", "c", 1)],
        new_file_list: Some(("/r".to_string(), Arc::new(strings(&["/a"])))),
    });
    app.tick();
    assert!(!app.searching);
    assert_eq!(app.file_lists.len(), 1);
    assert_eq!(app.list_state.selected(), Some(0));
    match app.take_effects().pop() {
        Some(Effect::RenderPreview { gen, path, width, height }) => {
            assert_eq!((path.as_str(), width, height), ("/a", 40, 24));
            app.send(Msg::PreviewDone { gen, path, width, preview: show_plain("text", false) });
        }
        e => panic!("{e:?}"),
    }
    app.tick();
    assert!(app.preview.is_some());
    assert!(!app.preview_loading);

    app.on_key(alt('j'));
    assert_eq!(app.list_state.selected(), Some(1));
    assert!(app.preview_loading);
    app.on_key(alt('k'));
    // it was kept
    assert!(app.preview.is_some());
    assert!(!app.preview_loading);
    app.on_key(alt('k'));
    assert_eq!(app.list_state.selected(), Some(0));

    match app.on_key(ctrl('g')) {
        Some(Action::Open(path)) => assert_eq!(path, "/a"),
        None => panic!(),
    }
}

#[test]
fn only_so_many_previews_are_kept() {
    let mut app = new_app();
    for i in 0..100 {
        app.preview_cache.push(CachedPreview {
            path: format!("/{i}"),
            width: 80,
            preview: text_preview("x"),
        });
    }
    app.send(Msg::PreviewDone {
        gen: app.preview_gen,
        path: "/new".to_string(),
        width: 80,
        preview: show_plain("y", false),
    });
    app.tick();
    assert_eq!(app.preview_cache.len(), 1);
    assert_eq!(app.preview_cache[0].path, "/new");
}

#[test]
fn a_full_list_stops_the_search() {
    let mut app = new_app();
    app.input = "q".to_string();
    app.mode = SearchMode::Content;
    app.on_key(enter());
    app.take_effects();
    let items: Vec<SearchResultItem> = (0..500)
        .map(|i| item(&format!("/{i}"), &format!("{i}"), i))
        .collect();
    app.send(Msg::SearchBatch { gen: app.search_gen, items });
    app.tick();
    assert_eq!(app.results.len(), 400);
    assert_eq!(app.results[0].score, 499);
    assert!(app.results.windows(2).all(|w| w[0].score > w[1].score));
    assert!(app.effects.iter().any(|e| matches!(e, Effect::CancelJob)));
}

#[test]
fn messages_vanish_after_a_while() {
    let mut app = new_app();
    app.set_clock(100);
    app.set_status("hello");
    app.set_clock(5100);
    app.tick();
    assert!(app.status.is_some());
    app.set_clock(5101);
    app.tick();
    assert!(app.status.is_none());
    app.on_copied(Ok(()));
    assert_eq!(app.status.as_ref().unwrap().0, "已复制文件路径到剪贴板");
    app.on_copied(Err("x".to_string()));
    assert!(app.status.as_ref().unwrap().0.ends_with('x'));
}

#[test]
fn releases_are_ignored() {
    let mut app = new_app();
    let mut k = esc();
    k.kind = KeyEventKind::Release;
    app.on_key(k);
    assert!(!app.should_quit);
}

#[test]
fn typing_and_backspace_undo_each_other() {
    let mut app = new_app();
    app.input = "中b".to_string();
    app.cursor = 1;
    app.on_key(key(KeyCode::Char('x')));
    assert_eq!((app.input.as_str(), app.cursor), ("中xb", 2));
    app.on_key(key(KeyCode::Backspace));
    assert_eq!((app.input.as_str(), app.cursor), ("中b", 1));
    app.on_key(key(KeyCode::Delete));
    assert_eq!(app.input, "中");
    app.on_key(key(KeyCode::Home));
    app.on_key(key(KeyCode::Backspace));
    assert_eq!((app.input.as_str(), app.cursor), ("中", 0));
    app.on_key(key(KeyCode::End));
    assert_eq!(app.cursor, 1);
    app.on_key(ctrl('u'));
    assert_eq!((app.input.as_str(), app.cursor), ("", 0));
    app.on_paste("a\tb\n");
    assert_eq!((app.input.as_str(), app.cursor), ("a\\tb\\n", 6));
}

#[test]
fn arrows_move_between_rows() {
    let mut app = new_app();
    app.input = "abc\ndef".to_string();
    app.cursor = 5;
    app.input_inner_width = 80;
    app.on_key(key(KeyCode::Up));
    assert_eq!(app.cursor, 1);
    app.on_key(key(KeyCode::Down));
    assert_eq!(app.cursor, 5);
    app.input_expanded = false;
    app.on_key(key(KeyCode::Up));
    assert_eq!(app.cursor, 5);
}

#[test]
fn popup_words_are_removed_up_to_the_separator() {
    let mut app = new_app();
    app.open_popup(PopupKind::Path);
    app.popup_select_all = false;
    app.popup_input = "/usr/local/bin".to_string();
    app.popup_cursor = 14;
    app.on_key(ctrl('w'));
    assert_eq!((app.popup_input.as_str(), app.popup_cursor), ("/usr/local/", 11));
    app.on_key(ctrl('w'));
    assert_eq!(app.popup_input, "/usr/local/");
    app.on_key(esc());
    assert_eq!(app.popup, None);
    assert!(!app.should_quit);
}

#[test]
fn home_is_shown_as_tilde() {
    let home = Some("/home/heng".to_string());
    assert_eq!(show_path("/home/heng", &home), "~");
    assert_eq!(show_path("/home/heng/a", &home), "~/a");
    assert_eq!(show_path("/home/hengx", &home), "/home/hengx");
    assert_eq!(show_path("/home/heng/a", &None), "/home/heng/a");
    assert_eq!(expand_tilde("~/a", &home), "/home/heng/a");
    assert_eq!(expand_tilde("~", &home), "/home/heng");
    assert_eq!(expand_tilde("~x", &home), "~x");
    assert_eq!(expand_tilde("~/a", &None), "~/a");
}

#[test]
fn sizes_are_digits_with_one_dot() {
    for s in ["10", "0.2", ".5", "5."] {
        assert!(is_written_as_size(s), "{s}");
    }
    for s in ["", ".", "1.2.3", "-1", "1e3", "inf", "１"] {
        assert!(!is_written_as_size(s), "{s}");
    }
}

#[test]
fn missing_tool_is_not_found() {
    // a tool that is not found is passed over in silence
    match copy(&vec![Err(CopyErr::NotFound)]) {
        CopyStep::Try(cmd) => {
            assert_eq!(cmd.program, "xclip");
            assert_eq!(cmd.args, strings(&["-selection", "clipboard"]));
        }
        s => panic!("{s:?}"),
    }
}

#[test]
fn copy_reports_error_when_no_tools() {
    let none = || Err(CopyErr::NotFound);
    match copy(&vec![none(), none(), none()]) {
        CopyStep::Done(r) => {
            assert!(r.is_err());
            assert_eq!(
                r.unwrap_err(),
                "未找到剪贴板工具（需 wl-copy / xclip / xsel）"
            );
        }
        s => panic!("{s:?}"),
    }
}

#[test]
fn copy_tries_the_tools_in_turn() {
    match copy(&Vec::new()) {
        CopyStep::Try(cmd) => {
            assert_eq!(cmd.program, "wl-copy");
            assert!(cmd.args.is_empty());
        }
        s => panic!("{s:?}"),
    }
    let failed = |m: &str| Err(CopyErr::Failed(m.to_string()));
    match copy(&vec![failed("no display"), Err(CopyErr::NotFound)]) {
        CopyStep::Try(cmd) => assert_eq!(cmd.program, "xsel"),
        s => panic!("{s:?}"),
    }
    match copy(&vec![failed("a"), failed("b"), Err(CopyErr::NotFound)]) {
        CopyStep::Done(Err(m)) => assert_eq!(m, "xclip: b"),
        s => panic!("{s:?}"),
    }
    match copy(&vec![failed("a"), Ok(())]) {
        CopyStep::Done(Ok(())) => {}
        s => panic!("{s:?}"),
    }
}
