use ratatui::backend::TestBackend;
use ratatui::style::{Color, Modifier, Style};
use ratatui::text::{Line, Span, Text};
use ratatui::widgets::{
    Block, BorderType, Borders, Clear, Paragraph, Scrollbar, ScrollbarOrientation, ScrollbarState,
    Wrap,
};
use ratatui::{Frame, Terminal};
use sift::app::{App, Msg, SizeLimit};
use sift::keys::{KeyCode, KeyEvent, KeyModifiers};
use sift::layout::Rect;
use sift::preview::{show_plain, Preview};
use sift::search::{sanitize_display, SearchMode, SearchResultItem};
use sift::theme::{Alignment, Panel, StyledLine};
use sift::ui::{build_footer_lines, draw, item_line, spinner, Draw};
use std::sync::Arc;
use unicode_width::UnicodeWidthStr;

fn new_app() -> App {
    App::new(
        Some("/home/heng/src".to_string()),
        Some("/home/heng".to_string()),
        Vec::new(),
        SizeLimit { text: "10".to_string(), bytes: 10485760 },
    )
}

fn color(c: u32) -> Color {
    Color::from_u32(c)
}

fn style(s: &sift::theme::Style) -> Style {
    let mut r = Style::default();
    if let Some(c) = s.fg {
        r = r.fg(color(c));
    }
    if let Some(c) = s.bg {
        r = r.bg(color(c));
    }
    if s.bold {
        r = r.add_modifier(Modifier::BOLD);
    }
    if s.italic {
        r = r.add_modifier(Modifier::ITALIC);
    }
    r
}

fn alignment(a: Alignment) -> ratatui::layout::Alignment {
    match a {
        Alignment::Left => ratatui::layout::Alignment::Left,
        Alignment::Center => ratatui::layout::Alignment::Center,
        Alignment::Right => ratatui::layout::Alignment::Right,
    }
}

fn line(l: &StyledLine) -> Line<'static> {
    let spans: Vec<Span<'static>> = l
        .spans
        .iter()
        .map(|s| Span::styled(s.text.clone(), style(&s.style)))
        .collect();
    let r = Line::from(spans);
    match l.align {
        Alignment::Left => r,
        a => r.alignment(alignment(a)),
    }
}

fn block(p: &Panel) -> Block<'static> {
    let mut b = Block::default()
        .borders(Borders::ALL)
        .border_type(BorderType::Rounded)
        .border_style(Style::default().fg(color(p.border)))
        .title(line(&p.title));
    if let Some(l) = &p.top {
        b = b.title_top(line(l));
    }
    if let Some(l) = &p.bottom {
        b = b.title_bottom(line(l));
    }
    b
}

fn rect(r: &Rect) -> ratatui::layout::Rect {
    ratatui::layout::Rect { x: r.x, y: r.y, width: r.width, height: r.height }
}

fn paint(f: &mut Frame, scene: &[Draw], app: &App) {
    for d in scene {
        match d {
            Draw::Panel { area, panel } => f.render_widget(block(panel), rect(area)),
            Draw::Text { area, frame, lines, style: s, wrap, align } => {
                let lines: Vec<Line> = lines.iter().map(line).collect();
                let mut p = Paragraph::new(lines).style(style(s)).alignment(alignment(*align));
                if let Some(panel) = frame {
                    p = p.block(block(panel));
                }
                if *wrap {
                    p = p.wrap(Wrap { trim: false });
                }
                f.render_widget(p, rect(area));
            }
            Draw::Preview { area, panel, scroll } => {
                if let Some(Preview::Text(lines)) = app.preview.as_deref() {
                    let lines: Vec<Line> = lines
                        .iter()
                        .map(|l| {
                            let spans: Vec<Span> =
                                l.spans.iter().map(|s| Span::raw(s.text.clone())).collect();
                            Line::from(spans)
                        })
                        .collect();
                    let p = Paragraph::new(Text::from(lines)).block(block(panel)).scroll((*scroll, 0));
                    f.render_widget(p, rect(area));
                }
            }
            Draw::Clear { area } => f.render_widget(Clear, rect(area)),
            Draw::Scrollbar { area, content, viewport, position } => {
                let mut state = ScrollbarState::default()
                    .content_length(*content)
                    .viewport_content_length(*viewport)
                    .position(*position);
                f.render_stateful_widget(
                    Scrollbar::new(ScrollbarOrientation::VerticalRight)
                        .begin_symbol(None)
                        .end_symbol(None),
                    rect(area),
                    &mut state,
                );
            }
            Draw::Cursor { x, y } => f.set_cursor_position((*x, *y)),
        }
    }
}

fn scene_of(app: &mut App, w: u16, h: u16) -> Vec<Draw> {
    draw(app, Rect { x: 0, y: 0, width: w, height: h }, 0)
}

fn render_to_string(app: &mut App, w: u16, h: u16) -> String {
    let mut terminal = Terminal::new(TestBackend::new(w, h)).unwrap();
    terminal
        .draw(|f| {
            let scene = scene_of(app, w, h);
            paint(f, &scene, app)
        })
        .unwrap();
    let buf = terminal.backend().buffer().clone();
    let mut out = String::new();
    for y in 0..h {
        let mut x = 0;
        while x < w {
            let symbol = buf[(x, y)].symbol();
            out.push_str(symbol);
            x += UnicodeWidthStr::width(symbol).max(1) as u16;
        }
        out.push('\n');
    }
    out
}

#[test]
fn enter_hint_shown_only_when_input_dirty() {
    let mut app = new_app();
    let s = render_to_string(&mut app, 100, 30);
    assert!(!s.contains("Enter 搜索"), "{s}");
    assert!(s.contains("暂无结果"), "{s}");
    assert!(s.contains("暂无预览"), "{s}");

    app.input = "test".to_string();
    app.cursor = 4;
    let s = render_to_string(&mut app, 100, 30);
    assert!(s.contains("Enter 搜索"), "{s}");

    app.last_query = "test".to_string();
    let s = render_to_string(&mut app, 100, 30);
    assert!(!s.contains("Enter 搜索"), "{s}");

    app.input = "test2".to_string();
    let s = render_to_string(&mut app, 100, 30);
    assert!(s.contains("Enter 搜索"), "{s}");
}

#[test]
fn list_title_shows_query_context_and_count() {
    let mut app = new_app();
    app.last_query = "foo".to_string();
    let s = render_to_string(&mut app, 100, 30);
    assert!(s.contains("文件名: foo"), "{s}");
    assert!(s.contains("0 项"), "{s}");
    assert!(s.contains("无匹配结果"), "{s}");
}

#[test]
fn list_title_multiline_query_stays_single_line() {
    let mut app = new_app();
    app.mode = SearchMode::Content;
    app.last_query = "foo\\nbar\\nbaz".to_string();
    let s = render_to_string(&mut app, 100, 30);
    assert!(s.contains("文件内容: foo⏎bar⏎baz"), "{s}");
    assert!(s.contains("\\n 换行"), "{s}");

    app.last_query = "a".repeat(500);
    let s = render_to_string(&mut app, 100, 30);
    assert!(s.contains("..."), "{s}");
    assert!(!s.contains(&"a".repeat(100)), "{s}");
}

#[test]
fn list_title_matches_collapsed_input_trailing_newlines() {
    let mut app = new_app();
    app.mode = SearchMode::Content;
    app.input = "ceshi \nceshi \n\n".to_string();
    app.cursor = app.input.chars().count();
    app.last_query = app.input.clone();
    let s = render_to_string(&mut app, 120, 30);
    assert!(s.contains("文件内容: ceshi ⏎ceshi ⏎⏎"), "{s}");
}

#[test]
fn control_chars_in_names_never_reach_screen() {
    let mut app = new_app();
    app.last_query = "test".to_string();
    app.results = vec![SearchResultItem {
        path: "/tmp/ctrl_\u{1b}[31m_test.sh".to_string(),
        display: sanitize_display("ctrl_\u{1b}[31m_test.sh"),
        matches: 0,
        score: 100,
        priority: 1,
    }];
    app.list_state.select(Some(0));

    let s = render_to_string(&mut app, 100, 30);
    assert!(s.contains('\u{FFFD}'), "{s}");
    for c in s.chars() {
        assert!(
            !c.is_control() || c == '\n',
            "control char U+{:04X} reached screen",
            c as u32
        );
    }
}

#[test]
fn status_shown_as_centered_toast() {
    let mut app = new_app();
    app.set_status("已取消当前搜索");
    let s = render_to_string(&mut app, 100, 30);
    assert!(s.contains("提示"), "{s}");
    assert!(s.contains("已取消当前搜索"), "{s}");
    assert!(!s.contains("|  已取消当前搜索"), "{s}");
}

#[test]
fn search_input_renders_newlines_as_line_breaks() {
    let mut app = new_app();
    app.input = "foo\nbar".to_string();
    app.cursor = 7;
    let s = render_to_string(&mut app, 100, 30);
    let rows: Vec<&str> = s.lines().collect();
    assert!(rows[1].contains("foo"), "{s}");
    assert!(rows[2].contains("bar"), "{s}");
    assert!(!rows[1].contains("bar"), "{s}");

    let mut app2 = new_app();
    app2.input = "foo\\nbar".to_string();
    app2.cursor = 8;
    let s2 = render_to_string(&mut app2, 100, 30);
    let rows2: Vec<&str> = s2.lines().collect();
    assert!(rows2[1].contains("foo"), "{s2}");
    assert!(rows2[2].contains("bar"), "{s2}");
    assert!(!rows2[1].contains("\\n"), "{s2}");
}

#[test]
fn input_title_shows_expand_state_indicator() {
    let unfold = '\u{F42D}';
    let fold = '\u{F48C}';

    let mut app = new_app();
    app.input_expanded = true;
    let s = render_to_string(&mut app, 100, 30);
    let title_row = s.lines().next().unwrap();
    assert!(s.contains(unfold), "{s}");
    assert!(!s.contains(fold), "{s}");
    assert!(title_row.contains("展开"), "{s}");

    app.input_expanded = false;
    let s = render_to_string(&mut app, 100, 30);
    let title_row = s.lines().next().unwrap();
    assert!(s.contains(fold), "{s}");
    assert!(!s.contains(unfold), "{s}");
    assert!(title_row.contains("收起"), "{s}");
}

#[test]
fn collapsed_input_single_line_with_ellipsis() {
    let mut app = new_app();
    app.input_expanded = false;
    app.input = "foo\nbar".to_string();
    app.cursor = 7;
    let s = render_to_string(&mut app, 100, 30);
    let rows: Vec<&str> = s.lines().collect();
    assert!(rows[1].contains("foo⏎bar"), "{s}");
    assert!(!rows[2].contains("bar"), "{s}");

    let mut app2 = new_app();
    app2.input_expanded = false;
    app2.input = "a".repeat(300);
    app2.cursor = 300;
    let s2 = render_to_string(&mut app2, 100, 30);
    let rows2: Vec<&str> = s2.lines().collect();
    assert!(rows2[1].contains("..."), "{s2}");
    assert!(!rows2[1].contains(&"a".repeat(100)), "{s2}");
}

#[test]
fn expanded_input_scrolls_when_overflowing() {
    let mut app = new_app();
    app.input_expanded = true;
    app.input = (1..=20)
        .map(|i| format!("line{i:02}"))
        .collect::<Vec<_>>()
        .join("\n");
    app.cursor = app.input.chars().count();

    let s = render_to_string(&mut app, 100, 30);
    assert!(s.contains("line20"), "{s}");
    assert!(!s.contains("line01"), "{s}");
    assert!(s.contains('█'), "{s}");
    assert_eq!(app.input_scroll, 10);

    app.cursor = 0;
    let s = render_to_string(&mut app, 100, 30);
    assert!(s.contains("line01"), "{s}");
    assert!(!s.contains("line20"), "{s}");
    assert_eq!(app.input_scroll, 0);
}

/// The area of a thing that is drawn.
fn area_of(d: &Draw) -> Option<Rect> {
    match d {
        Draw::Panel { area, .. } | Draw::Text { area, .. } | Draw::Preview { area, .. } => {
            Some(*area)
        }
        _ => None,
    }
}

#[test]
fn the_input_takes_at_most_a_third_of_the_screen() {
    for h in 16u16..60 {
        for rows in [1u16, 2, 3, 5, 8, 13, 40] {
            let mut app = new_app();
            app.input_expanded = true;
            app.input = vec!["a"; rows as usize].join("\n");
            let footer = (build_footer_lines(90).len() as u16).clamp(1, 4) + 2;
            let input = rows.min(h / 3) + 2;
            for (x, y) in [(0, 0), (3, 7)] {
                let scene = draw(&mut app, Rect { x, y, width: 90, height: h }, 0);
                let areas: Vec<Rect> = scene.iter().filter_map(area_of).collect();
                assert_eq!(areas[0], Rect { x, y, width: 90, height: input });
                let last = areas[areas.len() - 1];
                assert_eq!(last, Rect { x, y: y + h - footer, width: 90, height: footer });
                // without a result the full path takes one row, and the preview the rest
                let path = areas[areas.len() - 2];
                if h - input - footer >= 6 {
                    assert_eq!((path.y, path.height), (y + h - footer - 3, 3));
                }
                let list = areas.iter().find(|a| a.y == y + input && a.x == x).unwrap();
                assert_eq!(list.height, h - input - footer);
            }
            app.input_expanded = false;
            let scene = scene_of(&mut app, 90, h);
            assert_eq!(area_of(&scene[0]).unwrap().height, 3);
        }
    }
}

#[test]
fn ignore_dirs_popup_renders_multiple_lines() {
    let mut app = new_app();
    app.ignore_dirs = vec!["/home".to_string(), "/etc".to_string(), "/usr".to_string()];
    app.on_key(KeyEvent::new(KeyCode::Char('i'), KeyModifiers::control()));
    let s = render_to_string(&mut app, 100, 30);
    assert!(s.contains("/home"), "{s}");
    assert!(s.contains("/etc"), "{s}");
    assert!(s.contains("/usr"), "{s}");
    assert!(s.contains("每行一个"), "{s}");
    assert!(!s.contains("逗号分隔"), "{s}");
}

#[test]
fn input_dirty_logic() {
    let mut app = new_app();
    assert!(!app.input_dirty());
    app.input = " x ".to_string();
    assert!(app.input_dirty());
    app.last_query = "x".to_string();
    assert!(!app.input_dirty());
}

fn cursor_of(scene: &[Draw]) -> Option<(u16, u16)> {
    scene
        .iter()
        .filter_map(|d| match d {
            Draw::Cursor { x, y } => Some((*x, *y)),
            _ => None,
        })
        .last()
}

#[test]
fn the_cursor_stands_where_the_text_goes_on() {
    let mut app = new_app();
    app.input = "中文\nab".to_string();
    app.cursor = 2;
    assert_eq!(cursor_of(&scene_of(&mut app, 100, 30)), Some((5, 1)));
    app.cursor = 5;
    assert_eq!(cursor_of(&scene_of(&mut app, 100, 30)), Some((3, 2)));
    app.input_expanded = false;
    assert_eq!(cursor_of(&scene_of(&mut app, 100, 30)), Some((8, 1)));
    // a popup has the cursor while it is open: 60 columns, in the middle
    app.on_key(KeyEvent::new(KeyCode::Char('s'), KeyModifiers::control()));
    assert_eq!(cursor_of(&scene_of(&mut app, 100, 30)), Some((23, 14)));
}

#[test]
fn footer_lines_hold_whole_entries() {
    assert_eq!(build_footer_lines(1000).len(), 1);
    for w in [30u16, 60, 100] {
        for l in build_footer_lines(w) {
            let text: String = l.spans.iter().map(|s| s.text.as_str()).collect();
            assert!(text.width() <= w as usize - 2, "{w} {text}");
        }
    }
    let all: Vec<usize> = build_footer_lines(0).iter().map(|l| l.spans.len()).collect();
    assert_eq!(all, vec![2; 11]);
}

#[test]
fn items_show_name_and_count() {
    let item = SearchResultItem {
        path: "/abcdef".to_string(),
        display: "abcdef".to_string(),
        matches: 12,
        score: 0,
        priority: 1,
    };
    let text = |selected: bool, width: usize| -> String {
        item_line(&item, selected, width).spans.iter().map(|s| s.text.as_str()).collect()
    };
    assert_eq!(text(false, 20), " abcdef [12]");
    assert_eq!(text(true, 20), " abcdef [12]        ");
    assert_eq!(text(false, 10), " abc… [12]");
}

#[test]
fn spinner_turns() {
    assert_eq!(spinner(0), '⠋');
    assert_eq!(spinner(79), '⠋');
    assert_eq!(spinner(80), '⠙');
    assert_eq!(spinner(799), '⠏');
    assert_eq!(spinner(800), '⠋');
}

#[test]
fn preview_is_drawn_and_scrolled() {
    let mut app = new_app();
    app.last_query = "q".to_string();
    app.results = vec![SearchResultItem {
        path: "/a".to_string(),
        display: "a".to_string(),
        matches: 0,
        score: 1,
        priority: 1,
    }];
    app.list_state.select(Some(0));
    let content: String = (0..100).map(|i| format!("row{i}\n")).collect();
    app.preview = Some(Arc::new(show_plain(&content, false)));
    app.preview_path = Some("/a".to_string());
    let s = render_to_string(&mut app, 100, 30);
    assert!(s.contains("row0 "), "{s}");
    assert!(app.preview_max_scroll > 0);
    app.preview_scroll = 5;
    let s = render_to_string(&mut app, 100, 30);
    assert!(!s.contains("row4 "), "{s}");
    assert!(s.contains("row5 "), "{s}");
    app.preview_scroll = u16::MAX;
    render_to_string(&mut app, 100, 30);
    assert_eq!(app.preview_scroll, app.preview_max_scroll);

    // a preview of something else is not drawn
    app.preview_path = Some("/b".to_string());
    let s = render_to_string(&mut app, 100, 30);
    assert!(!s.contains("row"), "{s}");
    assert!(s.contains("加载中"), "{s}");
    assert!(app.preview.is_none());
}

#[test]
fn pictures_get_an_area() {
    let mut app = new_app();
    app.results = vec![SearchResultItem {
        path: "/a.png".to_string(),
        display: "a.png".to_string(),
        matches: 0,
        score: 1,
        priority: 1,
    }];
    app.list_state.select(Some(0));
    app.preview = Some(Arc::new(Preview::Image { transmit: vec![1] }));
    app.preview_path = Some("/a.png".to_string());
    scene_of(&mut app, 100, 30);
    let area = app.image_area.unwrap();
    assert_eq!((area.width, area.height), (app.preview_width, app.preview_height));
    app.preview = None;
    scene_of(&mut app, 100, 30);
    assert!(app.image_area.is_none());
}

#[test]
fn full_lists_are_counted_with_a_plus() {
    let mut app = new_app();
    app.last_query = "q".to_string();
    let items: Vec<SearchResultItem> = (0..400)
        .map(|i| SearchResultItem {
            path: format!("/{i}"),
            display: format!("n{i}"),
            matches: 0,
            score: 1,
            priority: 1,
        })
        .collect();
    app.send(Msg::SearchDone { gen: app.search_gen, content: false, items, new_file_list: None });
    app.tick();
    let s = render_to_string(&mut app, 100, 30);
    assert!(s.contains("400+ 项"), "{s}");
    app.searching = true;
    let s = render_to_string(&mut app, 100, 30);
    assert!(s.contains("搜索中 ⠋ 400 项"), "{s}");
    // the selected item is shown
    app.list_state.select(Some(399));
    let s = render_to_string(&mut app, 100, 30);
    assert!(s.contains("n399"), "{s}");
    assert!(!s.contains("n0 "), "{s}");
}

#[test]
fn small_screens_are_drawn() {
    for w in [0u16, 1, 2, 3, 10, 24] {
        for h in [0u16, 1, 2, 3, 8] {
            let mut app = new_app();
            app.input = "中文 text\nmore".to_string();
            app.cursor = 3;
            scene_of(&mut app, w, h);
            app.on_key(KeyEvent::new(KeyCode::Char('p'), KeyModifiers::control()));
            scene_of(&mut app, w, h);
            if h >= 3 {
                app.set_status("message");
                scene_of(&mut app, w, h);
            }
        }
    }
}
