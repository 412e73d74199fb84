//! What is drawn on the screen: the input on top, the list of results at the left, the preview
//! and the full path at the right, the keys at the bottom, and popups over them.
//!
//! A screen is a list of things to draw, one over the other. What is drawn for a state and an
//! area is computed here; putting it on the terminal is done elsewhere.

use crate::app::{App, AppView, PopupKind};
use crate::escapes::{decoded, sanitize_display, sanitized};
use crate::layout::{
    add_coord, add_to, fitting, less, max_coord, max_of, may_divide, min_coord, min_of, split, Rect, Size,
};
use crate::preview::{opt_text, Preview, PreviewView};
use crate::search::{ItemView, SearchMode, SearchResultItem, MAX_RESULTS};
use crate::state::{opt_preview, path_shown, same_opt_path};
use crate::text::{control, decimal, decimal_of, lines, lines_of, texts, trim, trim_str};
use crate::theme;
use crate::theme::{
    bold, bold_on, colored, icon_title, line_of, panel_in, placeholder_look, raw_style,
    selected_look, styled_views, title_look, Alignment, LineView, Panel, PanelView, Style,
    StyledLine,
};
use crate::wrap::{
    at_least_one, collapsed_column, collapsed_input_display, collapsed_text, cursor_place,
    decoded_single_line, fitting_len, input_cursor_line_col, one_line, one_line_has_no_control,
    row_estimate, rows, shown_cursor, source, text_columns, text_columns_of, truncate_width,
    truncate_width_with, truncated, truncated_start_fits, wrap_input, wrap_lines,
};
use vstd::prelude::*;

pub use crate::wrap::move_cursor_vertical;

verus! {

pub const ICON_FILE_LIST: &'static str = "\u{F022}";

pub const ICON_FILE_NAME: &'static str = "\u{F0C7C}";

pub const ICON_FILE_CONTENT: &'static str = "\u{F13B8}";

pub const ICON_PREVIEW: &'static str = "\u{F0208}";

pub const ICON_FULL_PATH: &'static str = "\u{F0216}";

pub const ICON_PATH: &'static str = "\u{F0968}";

pub const ICON_UNFOLD: &'static str = "\u{F42D}";

pub const ICON_FOLD: &'static str = "\u{F48C}";

// ------------------------------------------------------------ things to draw

/// One thing to draw.
#[derive(Debug)]
pub enum Draw {
    /// A border with titles.
    Panel { area: Rect, panel: Panel },
    /// Lines of text, inside a panel or without one.
    Text {
        area: Rect,
        frame: Option<Panel>,
        lines: Vec<StyledLine>,
        style: Style,
        wrap: bool,
        align: Alignment,
    },
    /// The text of the preview, scrolled.
    Preview { area: Rect, panel: Panel, scroll: u16 },
    /// Nothing: what was drawn there is removed.
    Clear { area: Rect },
    /// A scroll bar at the right.
    Scrollbar { area: Rect, content: usize, viewport: usize, position: usize },
    /// The cursor.
    Cursor { x: u16, y: u16 },
}

/// What is seen of a thing to draw.
#[verifier::ext_equal]
pub enum DrawView {
    Panel { area: Rect, panel: PanelView },
    Text {
        area: Rect,
        frame: Option<PanelView>,
        lines: Seq<LineView>,
        style: Style,
        wrap: bool,
        align: Alignment,
    },
    Preview { area: Rect, panel: PanelView, scroll: u16 },
    Clear { area: Rect },
    Scrollbar { area: Rect, content: int, viewport: int, position: int },
    Cursor { x: u16, y: u16 },
}

/// What is seen of an optional panel.
pub open spec fn opt_panel(p: Option<Panel>) -> Option<PanelView> {
    match p {
        Some(q) => Some(q@),
        None => None,
    }
}

impl View for Draw {
    type V = DrawView;

    open spec fn view(&self) -> DrawView {
        match *self {
            Draw::Panel { area, panel } => DrawView::Panel { area, panel: panel@ },
            Draw::Text { area, frame, lines, style, wrap, align } => DrawView::Text {
                area,
                frame: opt_panel(frame),
                lines: styled_views(lines@),
                style,
                wrap,
                align,
            },
            Draw::Preview { area, panel, scroll } => DrawView::Preview {
                area,
                panel: panel@,
                scroll,
            },
            Draw::Clear { area } => DrawView::Clear { area },
            Draw::Scrollbar { area, content, viewport, position } => DrawView::Scrollbar {
                area,
                content: content as int,
                viewport: viewport as int,
                position: position as int,
            },
            Draw::Cursor { x, y } => DrawView::Cursor { x, y },
        }
    }
}

/// What is seen of a list of things to draw.
pub open spec fn draw_views(v: Seq<Draw>) -> Seq<DrawView> {
    v.map_values(|d: Draw| d@)
}

fn add_draw(scene: &mut Vec<Draw>, d: Draw)
    ensures
        draw_views(final(scene)@) == draw_views(old(scene)@).push(d@),
{
    scene.push(d);
    assert(draw_views(scene@) == draw_views(old(scene)@).push(d@));
}

/// Text inside a panel, in one style.
pub open spec fn text_in(
    area: Rect,
    frame: Option<PanelView>,
    lines: Seq<LineView>,
    style: Style,
) -> DrawView {
    DrawView::Text { area, frame, lines, style, wrap: false, align: Alignment::Left }
}

/// A line of each text, in one style.
pub open spec fn lines_in(v: Seq<Seq<char>>, style: Style) -> Seq<LineView> {
    v.map_values(|l: Seq<char>| line_of(seq![(l, style)]))
}

/// At most `n` elements of `s`, from the one at `from` on.
pub open spec fn window<A>(s: Seq<A>, from: int, n: int) -> Seq<A> {
    if from >= s.len() {
        Seq::empty()
    } else if from + n >= s.len() {
        s.skip(from)
    } else {
        s.subrange(from, from + n)
    }
}

fn window_lines(v: &Vec<String>, from: usize, n: usize, style: Style) -> (r: Vec<StyledLine>)
    ensures
        styled_views(r@) == lines_in(window(texts(v@), from as int, n as int), style),
{
    let mut r: Vec<StyledLine> = Vec::new();
    let mut i: usize = from;
    let ghost all = texts(v@);
    assert(styled_views(r@) == lines_in(Seq::empty(), style));
    while i < v.len() && i - from < n
        invariant
            all == texts(v@),
            from <= i,
            i - from <= n,
            i <= v@.len() || i == from,
            styled_views(r@) == lines_in(window(all, from as int, i - from), style),
        decreases v@.len() - i,
    {
        let line = StyledLine::one(v[i].as_str(), style);
        let ghost before = styled_views(r@);
        r.push(line);
        assert(styled_views(r@) == before.push(line@));
        assert(window(all, from as int, i + 1 - from) == window(all, from as int, i - from).push(
            all[i as int],
        ));
        i += 1;
    }
    assert(window(all, from as int, i - from) == window(all, from as int, n as int));
    r
}

/// Unstyled text in lines.
pub open spec fn raw_lines(text: Seq<char>) -> Seq<LineView> {
    if text.len() == 0 {
        seq![line_of(Seq::empty())]
    } else {
        lines(text).map_values(
            |l: Seq<char>|
                if l.len() == 0 {
                    line_of(Seq::empty())
                } else {
                    line_of(seq![(l, raw_style())])
                },
        )
    }
}

fn raw_lines_of(text: &str) -> (r: Vec<StyledLine>)
    ensures
        styled_views(r@) == raw_lines(text@),
{
    let mut r: Vec<StyledLine> = Vec::new();
    if text.is_empty() {
        r.push(StyledLine::new());
        assert(styled_views(r@) == raw_lines(text@));
        return r;
    }
    let all = lines_of(text);
    let ghost f = |l: Seq<char>|
        if l.len() == 0 {
            line_of(Seq::empty())
        } else {
            line_of(seq![(l, raw_style())])
        };
    let mut i: usize = 0;
    while i < all.len()
        invariant
            i <= all@.len(),
            f == (|l: Seq<char>|
                if l.len() == 0 {
                    line_of(Seq::empty())
                } else {
                    line_of(seq![(l, raw_style())])
                }),
            styled_views(r@) == texts(all@).take(i as int).map_values(f),
        decreases all@.len() - i,
    {
        let line = if all[i].as_str().is_empty() {
            StyledLine::new()
        } else {
            StyledLine::one(all[i].as_str(), theme::raw())
        };
        assert(line@ == f(all@[i as int]@));
        let ghost before = styled_views(r@);
        r.push(line);
        assert(styled_views(r@) == before.push(line@));
        assert(texts(all@).take(i + 1) == texts(all@).take(i as int).push(all@[i as int]@));
        i += 1;
    }
    assert(texts(all@).take(i as int) == texts(all@));
    r
}

/// The width inside a border, at least one column.
pub open spec fn inner_width(width: u16) -> int {
    at_least_one(less(width, 2) as int)
}

fn inner_width_of(width: u16) -> (n: usize)
    ensures
        n == inner_width(width),
        1 <= n <= 65535,
{
    let w: u16 = width.saturating_sub(2);
    if w < 1 {
        1
    } else {
        w as usize
    }
}

// ------------------------------------------------------------ the input

/// The colour of a mode.
pub open spec fn mode_color(mode: SearchMode) -> theme::Color {
    match mode {
        SearchMode::FileName => theme::SKY,
        SearchMode::Content => theme::MAUVE,
    }
}

/// The icon of a mode.
pub open spec fn mode_icon(mode: SearchMode) -> Seq<char> {
    match mode {
        SearchMode::FileName => ICON_FILE_NAME@,
        SearchMode::Content => ICON_FILE_CONTENT@,
    }
}

fn mode_look(mode: SearchMode) -> (r: (theme::Color, &'static str))
    ensures
        r.0 == mode_color(mode),
        r.1@ == mode_icon(mode),
{
    match mode {
        SearchMode::FileName => (theme::SKY, ICON_FILE_NAME),
        SearchMode::Content => (theme::MAUVE, ICON_FILE_CONTENT),
    }
}

/// The sign at the start of the title that tells whether the input is expanded.
pub open spec fn expand_text(expanded: bool) -> Seq<char> {
    if expanded {
        " "@ + ICON_UNFOLD@ + " "@ + "展开"@
    } else {
        " "@ + ICON_FOLD@ + " "@ + "收起"@
    }
}

/// The columns that the title of the input takes without the path.
pub open spec fn title_width(v: AppView) -> int {
    text_columns(expand_text(v.input_expanded)) + text_columns(mode_icon(v.mode)) + text_columns(
        v.mode.label_text(),
    ) + text_columns(ICON_PATH@) + 5 * text_columns(" "@)
}

/// The columns that are left for the path in the title of the input, at least four.
pub open spec fn path_room(v: AppView, width: u16) -> int {
    let chip: int = if v.dirty() {
        12
    } else {
        0
    };
    let left = less(width, 2) - (title_width(v) + chip + 1);
    if left < 4 {
        4
    } else {
        left
    }
}

/// The title of the input: whether it is expanded, the mode and the search path.
pub open spec fn input_title(v: AppView, width: u16) -> LineView {
    let mode = bold(mode_color(v.mode));
    let path = bold(theme::YELLOW);
    line_of(
        seq![
            (
                expand_text(v.input_expanded),
                bold(
                    if v.input_expanded {
                        theme::GREEN
                    } else {
                        theme::PEACH
                    },
                ),
            ),
            (" "@, raw_style()),
            (mode_icon(v.mode), mode),
            (" "@, raw_style()),
            (v.mode.label_text(), mode),
            (" "@, raw_style()),
            (ICON_PATH@, path),
            (" "@, raw_style()),
            (
                truncated(
                    sanitized(path_shown(v.search_path, v.home)),
                    path_room(v, width),
                    "…"@,
                ),
                path,
            ),
            (" "@, raw_style()),
        ],
    )
}

/// The panel of the input: with the focus while no popup is open, with a hint to search where the
/// input was changed, and with a hint on line breaks where contents are searched.
pub open spec fn input_panel(v: AppView, width: u16) -> PanelView {
    PanelView {
        title: input_title(v, width),
        top: if v.dirty() {
            Some(
                LineView {
                    spans: seq![(" Enter 搜索 "@, bold_on(theme::BASE, theme::PEACH))],
                    align: Alignment::Right,
                },
            )
        } else {
            None
        },
        bottom: if v.mode == SearchMode::Content {
            Some(
                LineView {
                    spans: seq![
                        (" Shift+Enter 或 \\n 换行 \\\\ 反斜杠 "@, colored(theme::OVERLAY1)),
                    ],
                    align: Alignment::Right,
                },
            )
        } else {
            None
        },
        border: if v.popup is Some {
            theme::BORDER
        } else {
            theme::BORDER_FOCUS
        },
    }
}

fn expand_text_of(expanded: bool) -> (r: String)
    ensures
        r@ == expand_text(expanded),
{
    let mut r = " ".to_owned();
    if expanded {
        r.append(ICON_UNFOLD);
        r.append(" ");
        r.append("展开");
    } else {
        r.append(ICON_FOLD);
        r.append(" ");
        r.append("收起");
    }
    r
}

fn path_room_of(app: &App, width: u16) -> (n: usize)
    ensures
        n == path_room(app@, width),
{
    let sign = expand_text_of(app.input_expanded);
    let (_, icon) = mode_look(app.mode);
    let fixed: u128 = text_columns_of(sign.as_str()) as u128 + text_columns_of(icon) as u128
        + text_columns_of(app.mode.label()) as u128 + text_columns_of(ICON_PATH) as u128 + 5 * (
    text_columns_of(" ") as u128);
    let chip: u128 = if app.input_dirty() {
        12
    } else {
        0
    };
    let room: u128 = width.saturating_sub(2) as u128;
    let taken: u128 = fixed + chip + 1;
    if room < taken + 4 {
        4
    } else {
        (room - taken) as usize
    }
}

fn input_title_of(app: &App, width: u16) -> (l: StyledLine)
    ensures
        l@ == input_title(app@, width),
{
    let (color, icon) = mode_look(app.mode);
    let sign = expand_text_of(app.input_expanded);
    let sign_color: u32 = if app.input_expanded {
        theme::GREEN
    } else {
        theme::PEACH
    };
    let room: usize = path_room_of(app, width);
    let shown = sanitize_display(app.current_path_display().as_str());
    let path = truncate_width(shown.as_str(), room);
    let mut l = StyledLine::new();
    l.push(sign.as_str(), theme::in_bold(sign_color));
    l.push(" ", theme::raw());
    l.push(icon, theme::in_bold(color));
    l.push(" ", theme::raw());
    l.push(app.mode.label(), theme::in_bold(color));
    l.push(" ", theme::raw());
    l.push(ICON_PATH, theme::in_bold(theme::YELLOW));
    l.push(" ", theme::raw());
    l.push(path.as_str(), theme::in_bold(theme::YELLOW));
    l.push(" ", theme::raw());
    assert(l@.spans == input_title(app@, width).spans);
    l
}

fn input_panel_of(app: &App, width: u16) -> (p: Panel)
    ensures
        p@ == input_panel(app@, width),
{
    let title = input_title_of(app, width);
    let top = if app.input_dirty() {
        Some(
            StyledLine::one(" Enter 搜索 ", theme::in_bold_on(theme::BASE, theme::PEACH)).aligned(
                Alignment::Right,
            ),
        )
    } else {
        None
    };
    let bottom = if app.mode == SearchMode::Content {
        Some(
            StyledLine::one(
                " Shift+Enter 或 \\n 换行 \\\\ 反斜杠 ",
                theme::in_color(theme::OVERLAY1),
            ).aligned(Alignment::Right),
        )
    } else {
        None
    };
    let plain = if app.popup.is_some() {
        theme::panel(title)
    } else {
        theme::panel_focused(title)
    };
    Panel { title: plain.title, top, bottom, border: plain.border }
}

/// How many rows fit inside a border, at least one.
pub open spec fn inner_height(height: u16) -> int {
    at_least_one(less(height, 2) as int)
}

/// The first row to show of `count` rows in `height`, so that `row` is among those shown; as
/// near to `from` as that goes.
pub open spec fn scrolled_to(row: int, count: int, height: int, from: int) -> int {
    if count <= height {
        0
    } else {
        let s = if row < from {
            row
        } else if row >= from + height {
            row + 1 - height
        } else {
            from
        };
        if s <= count - height {
            s
        } else {
            count - height
        }
    }
}

fn scrolled_to_of(row: usize, count: usize, height: usize, from: usize) -> (r: usize)
    requires
        height >= 1,
    ensures
        r == scrolled_to(row as int, count as int, height as int, from as int),
{
    if count <= height {
        return 0;
    }
    let s: usize = if row < from {
        row
    } else if row - from >= height {
        row - height + 1
    } else {
        from
    };
    if s <= count - height {
        s
    } else {
        count - height
    }
}

/// The rows of the input in an area of `width` columns.
pub open spec fn input_rows(v: AppView, width: u16) -> Seq<Seq<char>> {
    rows(decoded(v.input), inner_width(width))
}

/// The row and the column of the cursor of the input.
pub open spec fn input_cursor(v: AppView, width: u16) -> (int, int) {
    cursor_place(decoded(v.input), shown_cursor(v.input, v.cursor, true), inner_width(width))
}

/// The first row of the expanded input that is shown.
pub open spec fn input_scroll(v: AppView, area: Rect) -> int {
    scrolled_to(
        input_cursor(v, area.width).0,
        input_rows(v, area.width).len() as int,
        inner_height(area.height),
        v.input_scroll,
    )
}

/// `a` without `b`, and not below zero.
pub open spec fn minus(a: int, b: int) -> int {
    if a < b {
        0
    } else {
        a - b
    }
}

/// The smaller number.
pub open spec fn lesser(a: int, b: int) -> int {
    if a <= b {
        a
    } else {
        b
    }
}

/// The cursor in the content of `area`, at a row and a column of it.
pub open spec fn cursor_in(area: Rect, row: int, col: int) -> DrawView {
    DrawView::Cursor {
        x: min_coord(
            add_coord(add_coord(area.x, 1), col),
            add_coord(area.x, less(area.width, 2) as int),
        ),
        y: add_coord(add_coord(area.y, 1), row),
    }
}

fn cursor_in_of(area: Rect, row: usize, col: usize) -> (d: Draw)
    ensures
        d@ == cursor_in(area, row as int, col as int),
{
    Draw::Cursor {
        x: min_of(
            add_to(area.x.saturating_add(1), col),
            area.x.saturating_add(area.width.saturating_sub(2)),
        ),
        y: add_to(area.y.saturating_add(1), row),
    }
}

/// What is drawn for the expanded input: its rows, a scroll bar where not all are shown, and the
/// cursor while no popup is open.
pub open spec fn expanded_scene(v: AppView, area: Rect) -> Seq<DrawView> {
    let content = input_rows(v, area.width);
    let height = inner_height(area.height);
    let scroll = input_scroll(v, area);
    let at = input_cursor(v, area.width);
    let text = text_in(
        area,
        Some(input_panel(v, area.width)),
        lines_in(window(content, scroll, height), raw_style()),
        colored(theme::TEXT),
    );
    let bar = if content.len() > height {
        seq![
            DrawView::Scrollbar {
                area: Rect {
                    x: add_coord(area.x, 1),
                    y: add_coord(area.y, 1),
                    width: less(area.width, 2),
                    height: height as u16,
                },
                content: content.len() as int,
                viewport: height,
                position: scroll,
            },
        ]
    } else {
        Seq::empty()
    };
    let cursor = if v.popup is None {
        seq![cursor_in(area, lesser(minus(at.0, scroll), height - 1), at.1)]
    } else {
        Seq::empty()
    };
    seq![text] + bar + cursor
}

/// What is drawn for the collapsed input: one line, and the cursor while no popup is open.
pub open spec fn collapsed_scene(v: AppView, area: Rect) -> Seq<DrawView> {
    let text = text_in(
        area,
        Some(input_panel(v, area.width)),
        lines_in(seq![collapsed_text(v.input, inner_width(area.width))], raw_style()),
        colored(theme::TEXT),
    );
    let cursor = if v.popup is None {
        seq![
            cursor_in(area, 0, collapsed_column(v.input, v.cursor, inner_width(area.width))),
        ]
    } else {
        Seq::empty()
    };
    seq![text] + cursor
}

/// What is drawn for the input.
#[verifier::opaque]
pub open spec fn input_scene(v: AppView, area: Rect) -> Seq<DrawView> {
    if v.input_expanded {
        expanded_scene(v, area)
    } else {
        collapsed_scene(v, area)
    }
}

/// The state behind drawing the input: an expanded input is scrolled to its cursor.
#[verifier::opaque]
pub open spec fn input_drawn(v: AppView, area: Rect) -> AppView {
    if v.input_expanded {
        AppView { input_scroll: input_scroll(v, area), ..v }
    } else {
        v
    }
}

fn draw_expanded(app: &mut App, area: Rect) -> (scene: Vec<Draw>)
    requires
        old(app).input_expanded,
    ensures
        draw_views(scene@) == expanded_scene(old(app)@, area),
        final(app)@ == input_drawn(old(app)@, area),
{
    proof {
        reveal(input_drawn);
    }
    let inner_w: usize = inner_width_of(area.width);
    let visible: usize = inner_width_of(area.height);
    let panel = input_panel_of(app, area.width);
    let content = wrap_input(app.input.as_str(), inner_w, true);
    assert(texts(content@).len() == content@.len());
    let (row, col) = input_cursor_line_col(app.input.as_str(), app.cursor, inner_w, true);
    let scroll: usize = scrolled_to_of(row, content.len(), visible, app.input_scroll);
    app.input_scroll = scroll;
    let lines = window_lines(&content, scroll, visible, theme::raw());
    let mut scene: Vec<Draw> = Vec::new();
    add_draw(
        &mut scene,
        Draw::Text {
            area,
            frame: Some(panel),
            lines,
            style: theme::in_color(theme::TEXT),
            wrap: false,
            align: Alignment::Left,
        },
    );
    if content.len() > visible {
        add_draw(
            &mut scene,
            Draw::Scrollbar {
                area: Rect {
                    x: area.x.saturating_add(1),
                    y: area.y.saturating_add(1),
                    width: area.width.saturating_sub(2),
                    height: visible as u16,
                },
                content: content.len(),
                viewport: visible,
                position: scroll,
            },
        );
    }
    if app.popup.is_none() {
        let below: usize = row.saturating_sub(scroll);
        let line: usize = if below <= visible - 1 {
            below
        } else {
            visible - 1
        };
        add_draw(&mut scene, cursor_in_of(area, line, col));
    }
    assert(draw_views(scene@) == expanded_scene(old(app)@, area));
    scene
}

fn draw_collapsed(app: &App, area: Rect) -> (scene: Vec<Draw>)
    ensures
        draw_views(scene@) == collapsed_scene(app@, area),
{
    let inner_w: usize = inner_width_of(area.width);
    let panel = input_panel_of(app, area.width);
    let (text, col) = collapsed_input_display(app.input.as_str(), app.cursor, inner_w);
    let mut lines: Vec<StyledLine> = Vec::new();
    lines.push(StyledLine::one(text.as_str(), theme::raw()));
    assert(styled_views(lines@) == lines_in(seq![text@], raw_style()));
    let mut scene: Vec<Draw> = Vec::new();
    add_draw(
        &mut scene,
        Draw::Text {
            area,
            frame: Some(panel),
            lines,
            style: theme::in_color(theme::TEXT),
            wrap: false,
            align: Alignment::Left,
        },
    );
    if app.popup.is_none() {
        add_draw(&mut scene, cursor_in_of(area, 0, col));
    }
    assert(draw_views(scene@) == collapsed_scene(app@, area));
    scene
}

/// Draws the input.
pub fn draw_input(app: &mut App, area: Rect) -> (scene: Vec<Draw>)
    ensures
        draw_views(scene@) == input_scene(old(app)@, area),
        final(app)@ == input_drawn(old(app)@, area),
{
    proof {
        reveal(input_scene);
        reveal(input_drawn);
    }
    if app.input_expanded {
        draw_expanded(app, area)
    } else {
        draw_collapsed(app, area)
    }
}

/// The row of the cursor is always among the rows of the expanded input that are shown.
pub proof fn input_cursor_is_shown(v: AppView, area: Rect)
    requires
        v.cursor >= 0,
        v.input_scroll >= 0,
    ensures
        input_scroll(v, area) <= input_cursor(v, area.width).0 < input_scroll(v, area)
            + inner_height(area.height),
{
    crate::wrap::cursor_on_a_row(
        decoded(v.input),
        shown_cursor(v.input, v.cursor, true),
        inner_width(area.width),
    );
}

// ------------------------------------------------------------ the list of results

/// The frames of the sign that turns while something is under way.
pub open spec fn spinner_frame(n: int) -> char {
    if n == 0 {
        '⠋'
    } else if n == 1 {
        '⠙'
    } else if n == 2 {
        '⠹'
    } else if n == 3 {
        '⠸'
    } else if n == 4 {
        '⠼'
    } else if n == 5 {
        '⠴'
    } else if n == 6 {
        '⠦'
    } else if n == 7 {
        '⠧'
    } else if n == 8 {
        '⠇'
    } else {
        '⠏'
    }
}

/// The sign that turns, at a time in milliseconds: a new frame every eighty.
pub open spec fn spinner_at(ms: u64) -> char {
    spinner_frame((ms / 80) as int % 10)
}

/// Gives the sign that turns, at a time in milliseconds.
pub fn spinner(ms: u64) -> (c: char)
    ensures
        c == spinner_at(ms),
{
    let n: u64 = (ms / 80) % 10;
    match n {
        0 => '⠋',
        1 => '⠙',
        2 => '⠹',
        3 => '⠸',
        4 => '⠼',
        5 => '⠴',
        6 => '⠦',
        7 => '⠧',
        8 => '⠇',
        _ => '⠏',
    }
}

fn char_text(c: char) -> (s: String)
    ensures
        s@ == seq![c],
{
    let mut s = String::new();
    s.push(c);
    assert(s@ == seq![c]);
    s
}

/// Empty lines, and one in the middle of the area.
pub open spec fn centered(spans: Seq<(Seq<char>, Style)>, height: u16) -> Seq<LineView> {
    Seq::new((height / 2) as nat, |i: int| line_of(Seq::empty())).push(
        LineView { spans, align: Alignment::Center },
    )
}

/// What stands in for missing content.
pub open spec fn placeholder_text(msg: Seq<char>, height: u16) -> Seq<LineView> {
    centered(seq![(msg, placeholder_look())], height)
}

/// What stands in for content that is under way.
pub open spec fn loading_text(label: Seq<char>, height: u16, ms: u64) -> Seq<LineView> {
    centered(
        seq![
            (label + " "@, placeholder_look()),
            (seq![spinner_at(ms)], colored(theme::YELLOW)),
        ],
        height,
    )
}

fn blank_lines(n: usize) -> (r: Vec<StyledLine>)
    ensures
        styled_views(r@) == Seq::new(n as nat, |i: int| line_of(Seq::empty())),
{
    let mut r: Vec<StyledLine> = Vec::new();
    while r.len() < n
        invariant
            r@.len() <= n,
            styled_views(r@) == Seq::new(r@.len(), |i: int| line_of(Seq::empty())),
        decreases n - r@.len(),
    {
        let ghost before = styled_views(r@);
        let line = StyledLine::new();
        r.push(line);
        assert(styled_views(r@) == before.push(line@));
        assert(Seq::new(r@.len(), |i: int| line_of(Seq::empty())) == before.push(
            line_of(Seq::empty()),
        ));
    }
    r
}

fn centered_of(line: StyledLine, height: u16) -> (r: Vec<StyledLine>)
    ensures
        styled_views(r@) == centered(line@.spans, height),
{
    let mut r = blank_lines((height / 2) as usize);
    let ghost before = styled_views(r@);
    let middle = line.aligned(Alignment::Center);
    r.push(middle);
    assert(styled_views(r@) == before.push(middle@));
    r
}

/// Gives what stands in for missing content.
pub fn placeholder_lines(msg: &str, height: u16) -> (r: Vec<StyledLine>)
    ensures
        styled_views(r@) == placeholder_text(msg@, height),
{
    centered_of(StyledLine::one(msg, theme::placeholder()), height)
}

/// Gives what stands in for content that is under way.
pub fn loading_lines(label: &str, height: u16, ms: u64) -> (r: Vec<StyledLine>)
    ensures
        styled_views(r@) == loading_text(label@, height, ms),
{
    let mut text = label.to_owned();
    text.append(" ");
    let mut line = StyledLine::one(text.as_str(), theme::placeholder());
    line.push(char_text(spinner(ms)).as_str(), theme::in_color(theme::YELLOW));
    assert(line@.spans == seq![
        (label@ + " "@, placeholder_look()),
        (seq![spinner_at(ms)], colored(theme::YELLOW)),
    ]);
    centered_of(line, height)
}

/// Whether there was a search.
pub open spec fn searched(v: AppView) -> bool {
    trim(v.last_query).len() > 0
}

fn was_searched(app: &App) -> (r: bool)
    ensures
        r == searched(app@),
{
    !trim_str(app.last_query.as_str()).as_str().is_empty()
}

/// The number of results as it is shown: with a plus sign where there may be more.
pub open spec fn count_text(v: AppView) -> Seq<char> {
    if !v.searching && v.results.len() >= MAX_RESULTS {
        decimal(v.results.len()) + "+"@
    } else {
        decimal(v.results.len())
    }
}

/// The title at the right of the list: how many results there are, and whether more come.
pub open spec fn list_right(v: AppView, ms: u64) -> Option<LineView> {
    if !searched(v) {
        None
    } else if v.searching {
        Some(
            line_of(
                seq![
                    (" 搜索中 "@, colored(theme::YELLOW)),
                    (seq![spinner_at(ms)] + " "@, colored(theme::YELLOW)),
                    (count_text(v) + " 项 "@, title_look()),
                ],
            ),
        )
    } else {
        Some(line_of(seq![(" "@ + count_text(v) + " 项 "@, title_look())]))
    }
}

/// The columns that the spans of a line take.
pub open spec fn spans_width(spans: Seq<(Seq<char>, Style)>) -> int
    decreases spans.len(),
{
    if spans.len() == 0 {
        0
    } else {
        spans_width(spans.drop_last()) + text_columns(spans.last().0)
    }
}

/// The columns that an optional line takes.
pub open spec fn opt_width(l: Option<LineView>) -> int {
    match l {
        Some(line) => spans_width(line.spans),
        None => 0,
    }
}

/// The columns that are left for the query in the title of the list, at least one.
pub open spec fn query_room(v: AppView, titles: int, right: int) -> int {
    let prefix = text_columns(" "@ + mode_icon(v.mode) + " "@) + text_columns(
        v.mode.label_text(),
    ) + 2;
    at_least_one(minus(titles, right + prefix + 1))
}

/// The title at the left of the list: what was searched, on one line.
pub open spec fn list_left(v: AppView, titles: int, right: int) -> LineView {
    if !searched(v) {
        icon_title(ICON_FILE_LIST@, "文件列表"@)
    } else {
        let look = bold(mode_color(v.mode));
        line_of(
            seq![
                (" "@ + mode_icon(v.mode) + " "@, look),
                (v.mode.label_text(), look),
                (": "@, title_look()),
                (
                    truncated(one_line(decoded(v.last_query)), query_room(v, titles, right), " ..."@),
                    bold(theme::YELLOW),
                ),
                (" "@, raw_style()),
            ],
        )
    }
}

fn list_title_right(app: &App, ms: u64) -> (r: Option<StyledLine>)
    ensures
        crate::theme::opt_line(r) == list_right(app@, ms),
{
    if !was_searched(app) {
        return None;
    }
    let n: usize = app.results.len();
    assert(app@.results.len() == n);
    let mut count = decimal_of(n as u64);
    if !app.searching && n >= MAX_RESULTS {
        count.append("+");
    }
    if app.searching {
        let mut sign = char_text(spinner(ms));
        sign.append(" ");
        count.append(" 项 ");
        let mut line = StyledLine::one(" 搜索中 ", theme::in_color(theme::YELLOW));
        line.push(sign.as_str(), theme::in_color(theme::YELLOW));
        line.push(count.as_str(), theme::title_style());
        assert(line@.spans == list_right(app@, ms)->0.spans);
        Some(line)
    } else {
        let mut text = " ".to_owned();
        text.append(count.as_str());
        text.append(" 项 ");
        Some(StyledLine::one(text.as_str(), theme::title_style()))
    }
}

fn spans_width_of(line: &StyledLine) -> (n: u128)
    ensures
        n == spans_width(line@.spans),
        n <= usize::MAX * line.spans@.len(),
{
    let mut n: u128 = 0;
    let mut i: usize = 0;
    let total: usize = line.spans.len();
    let ghost all = line@.spans;
    assert(all.take(0).len() == 0);
    while i < total
        invariant
            i <= total == line.spans@.len(),
            all == line@.spans,
            n == spans_width(all.take(i as int)),
            n <= usize::MAX * i,
        decreases total - i,
    {
        assert(all.take(i + 1).drop_last() == all.take(i as int));
        assert(all[i as int].0 == line.spans@[i as int].text@);
        assert(usize::MAX * i + usize::MAX == usize::MAX * (i + 1)) by (nonlinear_arith);
        assert(usize::MAX * (i + 1) <= usize::MAX * usize::MAX) by (nonlinear_arith)
            requires
                i + 1 <= usize::MAX,
        ;
        assert(usize::MAX * usize::MAX <= 0xffff_ffff_ffff_ffff * 0xffff_ffff_ffff_ffff)
            by (nonlinear_arith)
            requires
                usize::MAX <= 0xffff_ffff_ffff_ffff,
        ;
        n = n + text_columns_of(line.spans[i].text.as_str()) as u128;
        i += 1;
    }
    assert(all.take(i as int) == all);
    n
}

fn list_title_left(app: &App, titles: u16, right: u128) -> (l: StyledLine)
    requires
        right <= 3 * usize::MAX,
    ensures
        l@ == list_left(app@, titles as int, right as int),
{
    if !was_searched(app) {
        return theme::t_icon(ICON_FILE_LIST, "文件列表");
    }
    let (color, icon) = mode_look(app.mode);
    let mut icon_text = " ".to_owned();
    icon_text.append(icon);
    icon_text.append(" ");
    let prefix: u128 = text_columns_of(icon_text.as_str()) as u128 + text_columns_of(
        app.mode.label(),
    ) as u128 + 2;
    let taken: u128 = right + prefix + 1;
    let room: usize = if (titles as u128) < taken + 1 {
        1
    } else {
        (titles as u128 - taken) as usize
    };
    let query = truncate_width_with(
        decoded_single_line(app.last_query.as_str()).as_str(),
        room,
        " ...",
    );
    let mut l = StyledLine::new();
    l.push(icon_text.as_str(), theme::in_bold(color));
    l.push(app.mode.label(), theme::in_bold(color));
    l.push(": ", theme::title_style());
    l.push(query.as_str(), theme::in_bold(theme::YELLOW));
    l.push(" ", theme::raw());
    assert(l@.spans == list_left(app@, titles as int, right as int).spans);
    l
}

/// `n` spaces.
pub open spec fn spaces(n: int) -> Seq<char> {
    Seq::new(n as nat, |i: int| ' ')
}

fn spaces_of(n: usize) -> (s: String)
    ensures
        s@ == spaces(n as int),
{
    let mut s = String::new();
    let mut i: usize = 0;
    while i < n
        invariant
            i <= n,
            s@ == spaces(i as int),
        decreases n - i,
    {
        s.push(' ');
        assert(s@ == spaces(i + 1));
        i += 1;
    }
    s
}

/// The number of occurrences behind a result.
pub open spec fn badge(item: ItemView) -> Seq<char> {
    if item.matches > 0 {
        " ["@ + decimal(item.matches as nat) + "]"@
    } else {
        Seq::empty()
    }
}

/// The name of a result, shortened so that the badge fits behind it.
pub open spec fn item_name(item: ItemView, width: int) -> Seq<char> {
    truncated(item.display, minus(minus(width, 1), text_columns(badge(item)) as int), "…"@)
}

/// The line of a result; that of the selected one is filled to the end.
pub open spec fn item_text(item: ItemView, selected: bool, width: int) -> LineView {
    let name = item_name(item, width);
    let used = 1 + text_columns(name) + text_columns(badge(item));
    if selected {
        line_of(
            seq![
                (" "@ + name, selected_look()),
                (badge(item), bold_on(theme::GREEN, theme::SELECT_BG)),
                (spaces(minus(width, used)), selected_look()),
            ],
        )
    } else {
        line_of(
            seq![
                (" "@, raw_style()),
                (name, colored(theme::TEXT)),
                (badge(item), colored(theme::GREEN)),
            ],
        )
    }
}

/// Gives the line of a result.
pub fn item_line(item: &SearchResultItem, selected: bool, width: usize) -> (l: StyledLine)
    ensures
        l@ == item_text(item@, selected, width as int),
{
    let mut tag = String::new();
    if item.matches > 0 {
        tag.append(" [");
        tag.append(decimal_of(item.matches).as_str());
        tag.append("]");
    }
    assert(tag@ == badge(item@));
    let tag_w: usize = text_columns_of(tag.as_str());
    let room: usize = width.saturating_sub(1).saturating_sub(tag_w);
    let name = truncate_width(item.display.as_str(), room);
    let mut l = StyledLine::new();
    if selected {
        let used: u128 = 1 + text_columns_of(name.as_str()) as u128 + tag_w as u128;
        let pad: usize = if (width as u128) < used {
            0
        } else {
            (width as u128 - used) as usize
        };
        let mut text = " ".to_owned();
        text.append(name.as_str());
        l.push(text.as_str(), theme::selected());
        l.push(tag.as_str(), theme::in_bold_on(theme::GREEN, theme::SELECT_BG));
        l.push(spaces_of(pad).as_str(), theme::selected());
    } else {
        l.push(" ", theme::raw());
        l.push(name.as_str(), theme::in_color(theme::TEXT));
        l.push(tag.as_str(), theme::in_color(theme::GREEN));
    }
    assert(l@.spans == item_text(item@, selected, width as int).spans);
    l
}

/// The lines of the results from the one at `from` on, `n` of them at most.
pub open spec fn item_lines(v: AppView, from: int, n: int, width: int) -> Seq<LineView> {
    let shown = window(v.results, from, n);
    Seq::new(
        shown.len(),
        |i: int| item_text(shown[i], v.selected == Some((from + i) as usize), width),
    )
}

fn item_lines_of(app: &App, from: usize, n: usize, width: usize) -> (r: Vec<StyledLine>)
    ensures
        styled_views(r@) == item_lines(app@, from as int, n as int, width as int),
{
    let ghost v = app@;
    let mut r: Vec<StyledLine> = Vec::new();
    let mut i: usize = from;
    assert(styled_views(r@) == item_lines(v, from as int, 0, width as int));
    while i < app.results.len() && i - from < n
        invariant
            v == app@,
            from <= i,
            i - from <= n,
            i <= app.results@.len() || i == from,
            styled_views(r@) == item_lines(v, from as int, i - from, width as int),
        decreases app.results@.len() - i,
    {
        let chosen: bool = match app.list_state.selected {
            Some(k) => k == i,
            None => false,
        };
        let line = item_line(&app.results[i], chosen, width);
        let ghost before = styled_views(r@);
        r.push(line);
        assert(styled_views(r@) == before.push(line@));
        assert(v.results[i as int] == app.results@[i as int]@);
        assert(window(v.results, from as int, i + 1 - from) == window(
            v.results,
            from as int,
            i - from,
        ).push(v.results[i as int]));
        assert(item_lines(v, from as int, i + 1 - from, width as int) == before.push(line@));
        i += 1;
    }
    assert(window(v.results, from as int, i - from) == window(v.results, from as int, n as int));
    r
}

/// The panel of the list.
pub open spec fn list_panel(v: AppView, area: Rect, ms: u64) -> PanelView {
    let right = list_right(v, ms);
    PanelView {
        title: list_left(v, less(area.width, 2) as int, opt_width(right)),
        top: match right {
            Some(l) => Some(LineView { spans: l.spans, align: Alignment::Right }),
            None => None,
        },
        bottom: None,
        border: theme::BORDER,
    }
}

/// The state behind drawing the list: it is moved so that the selected result is shown.
#[verifier::opaque]
pub open spec fn list_drawn(v: AppView, area: Rect) -> AppView {
    let inner = area.inside();
    if inner.height == 0 || inner.width < 4 {
        v
    } else {
        v.list_shown(inner.height as int)
    }
}

/// What is drawn for the list of results.
#[verifier::opaque]
pub open spec fn list_scene(v: AppView, area: Rect, ms: u64) -> Seq<DrawView> {
    let inner = area.inside();
    let w = list_drawn(v, area);
    let panel = DrawView::Panel { area, panel: list_panel(v, area, ms) };
    if inner.height == 0 || inner.width < 4 {
        seq![panel]
    } else {
        let lines = if v.results.len() > 0 {
            item_lines(w, w.list_offset, inner.height as int, inner.width as int)
        } else if v.searching {
            loading_text("搜索中"@, inner.height, ms)
        } else if searched(v) {
            placeholder_text("无匹配结果"@, inner.height)
        } else {
            placeholder_text("暂无结果"@, inner.height)
        };
        seq![panel, text_in(inner, None, lines, raw_style())]
    }
}

fn plain_text(area: Rect, lines: Vec<StyledLine>) -> (d: Draw)
    ensures
        d@ == text_in(area, None, styled_views(lines@), raw_style()),
{
    Draw::Text {
        area,
        frame: None,
        lines,
        style: theme::raw(),
        wrap: false,
        align: Alignment::Left,
    }
}

/// Draws the list of results at a time in milliseconds.
pub fn draw_list(app: &mut App, area: Rect, ms: u64) -> (scene: Vec<Draw>)
    ensures
        draw_views(scene@) == list_scene(old(app)@, area, ms),
        final(app)@ == list_drawn(old(app)@, area),
{
    proof {
        reveal(list_scene);
        reveal(list_drawn);
    }
    let right = list_title_right(app, ms);
    let (right_w, top) = match right {
        Some(l) => {
            let w: u128 = spans_width_of(&l);
            assert(l.spans@.len() == l@.spans.len());
            assert(l.spans@.len() <= 3);
            assert(usize::MAX * l.spans@.len() <= 3 * usize::MAX) by (nonlinear_arith)
                requires
                    l.spans@.len() <= 3,
            ;
            (w, Some(l.aligned(Alignment::Right)))
        },
        None => (0u128, None),
    };
    let title = list_title_left(app, area.width.saturating_sub(2), right_w);
    let panel = Panel { title, top, bottom: None, border: theme::BORDER };
    let inner = area.inner();
    let mut scene: Vec<Draw> = Vec::new();
    add_draw(&mut scene, Draw::Panel { area, panel });
    if inner.height == 0 || inner.width < 4 {
        assert(draw_views(scene@) == list_scene(old(app)@, area, ms));
        return scene;
    }
    app.ensure_list_visible(inner.height as usize);
    let lines = if app.results.len() == 0 {
        if app.searching {
            loading_lines("搜索中", inner.height, ms)
        } else if was_searched(app) {
            placeholder_lines("无匹配结果", inner.height)
        } else {
            placeholder_lines("暂无结果", inner.height)
        }
    } else {
        item_lines_of(app, app.list_offset, inner.height as usize, inner.width as usize)
    };
    add_draw(&mut scene, plain_text(inner, lines));
    assert(draw_views(scene@) == list_scene(old(app)@, area, ms));
    scene
}

// ------------------------------------------------------------ the preview

/// The panel of the preview.
pub open spec fn preview_panel() -> PanelView {
    panel_in(icon_title(ICON_PREVIEW@, "预览"@), theme::BORDER)
}

/// The state with the size of the preview, and without a preview that is not that of the selected
/// result; that one is asked for instead.
pub open spec fn preview_matched(v: AppView, inner: Rect) -> AppView {
    let w = AppView {
        preview_width: max_coord(inner.width, 1),
        preview_height: max_coord(inner.height, 1),
        ..v
    };
    if w.preview is Some && !same_opt_path(w.preview_path, w.selected_path()) {
        AppView { preview: None, ..w }.preview_requested()
    } else {
        w
    }
}

/// How far a preview of `total` lines can be scrolled in `height` lines.
pub open spec fn scroll_limit(total: int, height: u16) -> u16 {
    minus(total, height as int) as u16
}

/// The state behind drawing the preview: text is scrolled no further than it goes, a picture not
/// at all.
#[verifier::opaque]
pub open spec fn preview_drawn(v: AppView, area: Rect) -> AppView {
    let inner = area.inside();
    let w = preview_matched(v, inner);
    match w.preview {
        Some(PreviewView::Text(lines)) => {
            let limit = scroll_limit(lines.len() as int, inner.height);
            AppView {
                image_area: None,
                preview_max_scroll: limit,
                preview_scroll: min_coord(w.preview_scroll, limit),
                ..w
            }
        },
        Some(PreviewView::Image(_)) => AppView {
            image_area: Some(inner),
            preview_max_scroll: 0,
            preview_scroll: 0,
            ..w
        },
        None => AppView { image_area: None, ..w },
    }
}

/// What stands in for a missing preview.
pub open spec fn no_preview(v: AppView, height: u16, ms: u64) -> Seq<LineView> {
    if v.preview_loading {
        loading_text("加载中"@, height, ms)
    } else if v.selected_item() is Some {
        placeholder_text("无法预览该文件"@, height)
    } else if v.searching {
        loading_text("搜索中"@, height, ms)
    } else if searched(v) {
        placeholder_text("无匹配结果"@, height)
    } else {
        placeholder_text("暂无预览"@, height)
    }
}

/// What is drawn for the preview: its text, an empty place for a picture, or what stands in for
/// it.
#[verifier::opaque]
pub open spec fn preview_scene(v: AppView, area: Rect, ms: u64) -> Seq<DrawView> {
    let inner = area.inside();
    let w = preview_drawn(v, area);
    let panel = DrawView::Panel { area, panel: preview_panel() };
    match w.preview {
        Some(PreviewView::Text(_)) => seq![
            DrawView::Preview { area, panel: preview_panel(), scroll: w.preview_scroll },
        ],
        Some(PreviewView::Image(_)) => seq![panel, DrawView::Clear { area: inner }],
        None => if inner.height > 0 && inner.width > 0 {
            seq![panel, text_in(inner, None, no_preview(w, inner.height, ms), raw_style())]
        } else {
            seq![panel]
        },
    }
}

/// What kind of preview there is: the lines of a text, a picture, or none.
enum Shown {
    Text(usize),
    Image,
    Nothing,
}

fn shown_preview(p: &Option<std::sync::Arc<Preview>>) -> (r: Shown)
    ensures
        match opt_preview(*p) {
            Some(PreviewView::Text(lines)) => r matches Shown::Text(n) && n == lines.len(),
            Some(PreviewView::Image(_)) => r is Image,
            None => r is Nothing,
        },
{
    match p {
        Some(q) => match &**q {
            Preview::Text(lines) => Shown::Text(lines.len()),
            Preview::Image { transmit } => Shown::Image,
        },
        None => Shown::Nothing,
    }
}

fn match_preview(app: &mut App, inner: Rect)
    ensures
        final(app)@ == preview_matched(old(app)@, inner),
{
    app.preview_width = max_of(inner.width, 1);
    app.preview_height = max_of(inner.height, 1);
    let selected = match app.selected_item() {
        Some(item) => Some(item.path.clone()),
        None => None,
    };
    assert(opt_text(selected) == app@.selected_path());
    let same: bool = match &app.preview_path {
        Some(p) => match &selected {
            Some(q) => crate::paths::names_same_path(p.as_str(), q.as_str()),
            None => false,
        },
        None => selected.is_none(),
    };
    if app.preview.is_some() && !same {
        app.preview = None;
        app.request_preview();
    }
}

fn no_preview_of(app: &App, height: u16, ms: u64) -> (r: Vec<StyledLine>)
    ensures
        styled_views(r@) == no_preview(app@, height, ms),
{
    if app.preview_loading {
        loading_lines("加载中", height, ms)
    } else if app.selected_item().is_some() {
        placeholder_lines("无法预览该文件", height)
    } else if app.searching {
        loading_lines("搜索中", height, ms)
    } else if was_searched(app) {
        placeholder_lines("无匹配结果", height)
    } else {
        placeholder_lines("暂无预览", height)
    }
}

/// Draws the preview at a time in milliseconds.
pub fn draw_preview(app: &mut App, area: Rect, ms: u64) -> (scene: Vec<Draw>)
    ensures
        draw_views(scene@) == preview_scene(old(app)@, area, ms),
        final(app)@ == preview_drawn(old(app)@, area),
{
    proof {
        reveal(preview_scene);
        reveal(preview_drawn);
    }
    let panel = theme::panel(theme::t_icon(ICON_PREVIEW, "预览"));
    let inner = area.inner();
    match_preview(app, inner);
    let mut scene: Vec<Draw> = Vec::new();
    match shown_preview(&app.preview) {
        Shown::Text(total) => {
            app.image_area = None;
            let most: usize = total.saturating_sub(inner.height as usize);
            let limit: u16 = most as u16;
            app.preview_max_scroll = limit;
            if app.preview_scroll > limit {
                app.preview_scroll = limit;
            }
            add_draw(&mut scene, Draw::Preview { area, panel, scroll: app.preview_scroll });
        },
        Shown::Image => {
            app.preview_max_scroll = 0;
            app.preview_scroll = 0;
            app.image_area = Some(inner);
            add_draw(&mut scene, Draw::Panel { area, panel });
            add_draw(&mut scene, Draw::Clear { area: inner });
        },
        Shown::Nothing => {
            app.image_area = None;
            add_draw(&mut scene, Draw::Panel { area, panel });
            if inner.height > 0 && inner.width > 0 {
                let lines = no_preview_of(app, inner.height, ms);
                add_draw(&mut scene, plain_text(inner, lines));
            }
        },
    }
    assert(draw_views(scene@) == preview_scene(old(app)@, area, ms));
    scene
}

/// The preview that is drawn is that of the selected result, or none is drawn.
pub proof fn drawn_preview_is_selected(v: AppView, area: Rect)
    ensures
        preview_drawn(v, area).preview is Some ==> same_opt_path(
            preview_drawn(v, area).preview_path,
            preview_drawn(v, area).selected_path(),
        ),
{
    reveal(preview_drawn);
    reveal(AppView::preview_requested);
}

// ------------------------------------------------------------ the path and the keys

/// What is drawn for the full path of the selected result.
pub open spec fn path_scene(path: Seq<char>, area: Rect) -> DrawView {
    DrawView::Text {
        area,
        frame: Some(panel_in(icon_title(ICON_FULL_PATH@, "完整路径"@), theme::BORDER)),
        lines: raw_lines(path),
        style: colored(theme::SKY),
        wrap: true,
        align: Alignment::Left,
    }
}

/// Draws the full path of the selected result.
pub fn draw_path(path: &str, area: Rect) -> (d: Draw)
    ensures
        d@ == path_scene(path@, area),
{
    Draw::Text {
        area,
        frame: Some(theme::panel(theme::t_icon(ICON_FULL_PATH, "完整路径"))),
        lines: raw_lines_of(path),
        style: theme::in_color(theme::SKY),
        wrap: true,
        align: Alignment::Left,
    }
}

/// The keys in the footer.
pub const FOOTER_KEYS: [&'static str; 11] = [
    "Tab",
    "Ctrl+H",
    "Ctrl+P",
    "Ctrl+I",
    "Ctrl+S",
    "Alt+J/K",
    "Ctrl+J/K",
    "Ctrl+G",
    "Ctrl+C",
    "Esc",
    "Enter",
];

/// What the keys in the footer do.
pub const FOOTER_NOTES: [&'static str; 11] = [
    ":切换模式",
    ":展开/折叠输入框",
    ":搜索路径",
    ":忽略目录",
    ":文件大小上限",
    ":文件选择",
    ":滚动预览",
    ":打开文件",
    ":复制路径",
    ":取消/退出",
    ":搜索",
];

/// Lines of the footer, and the line that is being filled with the columns that it takes.
#[verifier::ext_equal]
pub struct FooterView {
    pub done: Seq<LineView>,
    pub open: Seq<(Seq<char>, Style)>,
    pub width: int,
}

/// The footer with an entry behind it: on the same line, two spaces apart, where it fits, else on
/// a new one.
pub open spec fn with_entry(
    f: FooterView,
    key: (Seq<char>, Style),
    note: (Seq<char>, Style),
    room: int,
) -> FooterView {
    let own = text_columns(key.0) + text_columns(note.0);
    if f.open.len() == 0 {
        FooterView { open: seq![key, note], width: own, ..f }
    } else if f.width + own + 2 > room {
        FooterView { done: f.done.push(line_of(f.open)), open: seq![key, note], width: own }
    } else {
        FooterView {
            open: f.open.push(("  "@, raw_style())).push(key).push(note),
            width: f.width + 2 + own,
            ..f
        }
    }
}

/// The key of an entry of the footer.
pub open spec fn footer_key(i: int) -> (Seq<char>, Style) {
    (FOOTER_KEYS[i]@, bold(theme::YELLOW))
}

/// The note of an entry of the footer.
pub open spec fn footer_note(i: int) -> (Seq<char>, Style) {
    (FOOTER_NOTES[i]@, colored(theme::OVERLAY1))
}

/// The footer with its first `n` entries.
pub open spec fn footer_with(n: int, room: int) -> FooterView
    decreases n,
{
    if n <= 0 {
        FooterView { done: Seq::empty(), open: Seq::empty(), width: 0 }
    } else {
        with_entry(footer_with(n - 1, room), footer_key(n - 1), footer_note(n - 1), room)
    }
}

/// The lines of the footer in an area of `width` columns.
pub open spec fn footer_lines(width: u16) -> Seq<LineView> {
    let f = footer_with(11, inner_width(width));
    f.done.push(line_of(f.open))
}

/// Gives the lines of the footer: the entries side by side, as many on a line as fit.
pub fn build_footer_lines(width: u16) -> (r: Vec<StyledLine>)
    ensures
        styled_views(r@) == footer_lines(width),
        r@.len() >= 1,
        r@.len() <= 12,
{
    let room: u128 = inner_width_of(width) as u128;
    let ghost room_int = inner_width(width);
    let mut done: Vec<StyledLine> = Vec::new();
    let mut open = StyledLine::new();
    let mut taken: u128 = 0;
    let mut i: usize = 0;
    assert(styled_views(done@) == Seq::<LineView>::empty());
    while i < 11
        invariant
            i <= 11,
            room == room_int,
            done@.len() <= i,
            taken <= i * 0x3_0000_0000_0000_0000,
            open@.align == Alignment::Left,
            i > 0 ==> open@.spans.len() > 0,
            footer_with(i as int, room_int) == (FooterView {
                done: styled_views(done@),
                open: open@.spans,
                width: taken as int,
            }),
        decreases 11 - i,
    {
        let key = FOOTER_KEYS[i];
        let note = FOOTER_NOTES[i];
        let own: u128 = text_columns_of(key) as u128 + text_columns_of(note) as u128;
        assert(own <= 0x2_0000_0000_0000_0000);
        let ghost f = footer_with(i as int, room_int);
        let ghost g = footer_with(i + 1, room_int);
        assert(g == with_entry(f, footer_key(i as int), footer_note(i as int), room_int));
        let ghost spans = open@.spans;
        if i > 0 && taken + own + 2 > room {
            let ghost before = styled_views(done@);
            let full = open;
            done.push(full);
            assert(full@ == line_of(spans));
            assert(styled_views(done@) == before.push(line_of(spans)));
            open = StyledLine::new();
            taken = 0;
        } else if i > 0 {
            open.push("  ", theme::raw());
            taken = taken + 2;
        }
        open.push(key, theme::in_bold(theme::YELLOW));
        open.push(note, theme::in_color(theme::OVERLAY1));
        taken = taken + own;
        assert(open@.spans == g.open);
        i += 1;
    }
    let ghost before = styled_views(done@);
    done.push(open);
    assert(styled_views(done@) == before.push(open@));
    done
}

/// What is drawn for the footer.
pub open spec fn footer_scene(lines: Seq<LineView>, area: Rect) -> DrawView {
    text_in(area, Some(panel_in(line_of(Seq::empty()), theme::BORDER)), lines, raw_style())
}

/// Draws the footer.
pub fn draw_footer(lines: Vec<StyledLine>, area: Rect) -> (d: Draw)
    ensures
        d@ == footer_scene(styled_views(lines@), area),
{
    Draw::Text {
        area,
        frame: Some(theme::panel(StyledLine::new())),
        lines,
        style: theme::raw(),
        wrap: false,
        align: Alignment::Left,
    }
}

// ------------------------------------------------------------ popups

/// The number kept between `low` and `high`.
pub open spec fn between(n: int, low: int, high: int) -> int {
    if n < low {
        low
    } else if n > high {
        high
    } else {
        n
    }
}

/// An area of `width` by `height` cells in the middle of another.
pub open spec fn in_middle(area: Rect, width: u16, height: u16) -> Rect {
    Rect {
        x: add_coord(area.x, (less(area.width, width) / 2) as int),
        y: add_coord(area.y, (less(area.height, height) / 2) as int),
        width,
        height,
    }
}

fn in_middle_of(area: Rect, width: u16, height: u16) -> (r: Rect)
    ensures
        r == in_middle(area, width, height),
{
    Rect {
        x: area.x.saturating_add(area.width.saturating_sub(width) / 2),
        y: area.y.saturating_add(area.height.saturating_sub(height) / 2),
        width,
        height,
    }
}

/// The width of a popup: three fifths of the screen, within bounds.
pub open spec fn popup_width(width: u16) -> u16 {
    lesser(between(width * 3 / 5, 24, 72), width as int) as u16
}

/// The title of a popup.
pub open spec fn popup_name(kind: PopupKind) -> (Seq<char>, Seq<char>, theme::Color) {
    match kind {
        PopupKind::Path => (
            " 搜索路径 "@,
            "(Enter 确认 / Esc 取消，支持 ~)"@,
            theme::MAUVE,
        ),
        PopupKind::IgnoreDirs => (" 忽略目录 "@, "(每行一个 / Enter 确认)"@, theme::PEACH),
        PopupKind::MaxSize => (
            " 文件大小上限(M) "@,
            "(数字，Enter 确认 / Esc 取消)"@,
            theme::GREEN,
        ),
    }
}

/// The title line of a popup.
pub open spec fn popup_title(kind: PopupKind) -> LineView {
    let (name, hint, color) = popup_name(kind);
    line_of(
        seq![(name, bold(color)), (hint, colored(theme::OVERLAY1)), (" "@, raw_style())],
    )
}

/// The rows of the text of a popup; only the directories to ignore are written with escapes.
pub open spec fn popup_rows(v: AppView, kind: PopupKind, width: u16) -> Seq<Seq<char>> {
    rows(source(v.popup_input, kind == PopupKind::IgnoreDirs), inner_width(width))
}

/// The row and the column of the cursor of a popup.
pub open spec fn popup_cursor(v: AppView, kind: PopupKind, width: u16) -> (int, int) {
    let decode = kind == PopupKind::IgnoreDirs;
    cursor_place(
        source(v.popup_input, decode),
        shown_cursor(v.popup_input, v.popup_cursor, decode),
        inner_width(width),
    )
}

/// How many lines the error of a popup takes.
pub open spec fn error_lines(v: AppView) -> int {
    if v.popup_error is Some {
        1
    } else {
        0
    }
}

/// How many rows of text a popup shows at most.
pub open spec fn popup_room(v: AppView, height: u16) -> int {
    at_least_one(minus(between(less(height, 2) as int, 3, 18), 2 + error_lines(v)))
}

/// The first row of a popup that is shown.
pub open spec fn popup_offset(v: AppView, kind: PopupKind, area: Rect) -> int {
    let width = popup_width(area.width);
    let count = popup_rows(v, kind, width).len() as int;
    let room = popup_room(v, area.height);
    if count > room {
        lesser(minus(popup_cursor(v, kind, width).0, room - 1), count - room)
    } else {
        0
    }
}

/// How many rows of a popup are shown.
pub open spec fn popup_visible(v: AppView, kind: PopupKind, area: Rect) -> int {
    lesser(
        popup_rows(v, kind, popup_width(area.width)).len() as int,
        popup_room(v, area.height),
    )
}

/// Where a popup stands.
pub open spec fn popup_place(v: AppView, kind: PopupKind, area: Rect) -> Rect {
    in_middle(
        area,
        popup_width(area.width),
        (popup_visible(v, kind, area) + 2 + error_lines(v)) as u16,
    )
}

/// The lines of a popup: its rows from `offset` on, and an error below them.
pub open spec fn popup_lines(v: AppView, content: Seq<Seq<char>>, offset: int, room: int) -> Seq<
    LineView,
> {
    let text = lines_in(
        window(content, offset, room),
        if v.popup_select_all {
            selected_look()
        } else {
            colored(theme::TEXT)
        },
    );
    match v.popup_error {
        Some(e) => text.push(line_of(seq![(e, colored(theme::RED))])),
        None => text,
    }
}

/// What is drawn for a popup: its text, scrolled to the cursor, an error below it, and the
/// cursor.
#[verifier::opaque]
pub open spec fn popup_scene(v: AppView, kind: PopupKind, area: Rect) -> Seq<DrawView> {
    let width = popup_width(area.width);
    let place = popup_place(v, kind, area);
    let at = popup_cursor(v, kind, width);
    let offset = popup_offset(v, kind, area);
    seq![
        DrawView::Clear { area: place },
        text_in(
            place,
            Some(panel_in(popup_title(kind), theme::BORDER_POPUP)),
            popup_lines(v, popup_rows(v, kind, width), offset, popup_room(v, area.height)),
            colored(theme::TEXT),
        ),
        cursor_in(
            place,
            lesser(minus(at.0, offset), minus(popup_visible(v, kind, area), 1)),
            at.1,
        ),
    ]
}

fn popup_title_of(kind: PopupKind) -> (l: StyledLine)
    ensures
        l@ == popup_title(kind),
{
    let (name, hint, color): (&'static str, &'static str, u32) = match kind {
        PopupKind::Path => (
            " 搜索路径 ",
            "(Enter 确认 / Esc 取消，支持 ~)",
            theme::MAUVE,
        ),
        PopupKind::IgnoreDirs => (" 忽略目录 ", "(每行一个 / Enter 确认)", theme::PEACH),
        PopupKind::MaxSize => (
            " 文件大小上限(M) ",
            "(数字，Enter 确认 / Esc 取消)",
            theme::GREEN,
        ),
    };
    let mut l = StyledLine::new();
    l.push(name, theme::in_bold(color));
    l.push(hint, theme::in_color(theme::OVERLAY1));
    l.push(" ", theme::raw());
    assert(l@.spans == popup_title(kind).spans);
    l
}

fn popup_width_of(width: u16) -> (r: u16)
    ensures
        r == popup_width(width),
{
    let wide: u32 = width as u32 * 3 / 5;
    let w: u16 = if wide < 24 {
        24
    } else if wide > 72 {
        72
    } else {
        wide as u16
    };
    min_of(w, width)
}

fn popup_room_of(app: &App, height: u16) -> (n: usize)
    ensures
        n == popup_room(app@, height),
        1 <= n <= 16,
{
    let tall: u16 = height.saturating_sub(2);
    let most: usize = if tall < 3 {
        3
    } else if tall > 18 {
        18
    } else {
        tall as usize
    };
    let errors: usize = if app.popup_error.is_some() {
        1
    } else {
        0
    };
    let left: usize = most.saturating_sub(2 + errors);
    if left < 1 {
        1
    } else {
        left
    }
}

fn popup_lines_of(app: &App, content: &Vec<String>, offset: usize, room: usize) -> (r: Vec<
    StyledLine,
>)
    ensures
        styled_views(r@) == popup_lines(app@, texts(content@), offset as int, room as int),
{
    let style = if app.popup_select_all {
        theme::selected()
    } else {
        theme::in_color(theme::TEXT)
    };
    let mut lines = window_lines(content, offset, room, style);
    match &app.popup_error {
        Some(e) => {
            let ghost before = styled_views(lines@);
            let line = StyledLine::one(e.as_str(), theme::in_color(theme::RED));
            lines.push(line);
            assert(styled_views(lines@) == before.push(line@));
        },
        None => {},
    }
    lines
}

fn draw_popup_kind(app: &App, kind: PopupKind, area: Rect) -> (scene: Vec<Draw>)
    ensures
        draw_views(scene@) == popup_scene(app@, kind, area),
{
    let width: u16 = popup_width_of(area.width);
    let inner_w: usize = inner_width_of(width);
    let decode: bool = kind == PopupKind::IgnoreDirs;
    let content = wrap_input(app.popup_input.as_str(), inner_w, decode);
    let count: usize = content.len();
    assert(texts(content@).len() == count);
    let room: usize = popup_room_of(app, area.height);
    let visible: usize = if count <= room {
        count
    } else {
        room
    };
    let height: u16 = if app.popup_error.is_some() {
        visible as u16 + 3
    } else {
        visible as u16 + 2
    };
    let place = in_middle_of(area, width, height);
    let (row, col) = input_cursor_line_col(
        app.popup_input.as_str(),
        app.popup_cursor,
        inner_w,
        decode,
    );
    let offset: usize = if count > room {
        let back: usize = row.saturating_sub(room - 1);
        if back <= count - room {
            back
        } else {
            count - room
        }
    } else {
        0
    };
    assert(offset == popup_offset(app@, kind, area));
    assert(place == popup_place(app@, kind, area));
    let lines = popup_lines_of(app, &content, offset, room);
    let below: usize = row.saturating_sub(offset);
    let last: usize = visible.saturating_sub(1);
    let line: usize = if below <= last {
        below
    } else {
        last
    };
    let mut scene: Vec<Draw> = Vec::new();
    add_draw(&mut scene, Draw::Clear { area: place });
    add_draw(
        &mut scene,
        Draw::Text {
            area: place,
            frame: Some(theme::popup(popup_title_of(kind))),
            lines,
            style: theme::in_color(theme::TEXT),
            wrap: false,
            align: Alignment::Left,
        },
    );
    add_draw(&mut scene, cursor_in_of(place, line, col));
    proof {
        reveal(popup_scene);
    }
    assert(draw_views(scene@) == popup_scene(app@, kind, area));
    scene
}

/// What is drawn for the popup, where one is open.
pub open spec fn open_popup_scene(v: AppView, area: Rect) -> Seq<DrawView> {
    match v.popup {
        Some(kind) => popup_scene(v, kind, area),
        None => Seq::empty(),
    }
}

/// Draws the popup, where one is open.
pub fn draw_popup(app: &App, area: Rect) -> (scene: Vec<Draw>)
    ensures
        draw_views(scene@) == open_popup_scene(app@, area),
{
    match app.popup {
        Some(kind) => draw_popup_kind(app, kind, area),
        None => {
            let scene: Vec<Draw> = Vec::new();
            assert(draw_views(scene@) == Seq::<DrawView>::empty());
            scene
        },
    }
}

/// The row of the cursor is always among the rows of a popup that are shown.
pub proof fn popup_cursor_is_shown(v: AppView, kind: PopupKind, area: Rect)
    requires
        v.popup_cursor >= 0,
    ensures
        popup_offset(v, kind, area) <= popup_cursor(v, kind, popup_width(area.width)).0
            < popup_offset(v, kind, area) + popup_visible(v, kind, area),
{
    let decode = kind == PopupKind::IgnoreDirs;
    crate::wrap::cursor_on_a_row(
        source(v.popup_input, decode),
        shown_cursor(v.popup_input, v.popup_cursor, decode),
        inner_width(popup_width(area.width)),
    );
}

/// The width of the message: as wide as its text, within bounds and on the screen.
pub open spec fn toast_width(msg: Seq<char>, width: u16) -> u16 {
    let wanted = lesser(between(text_columns(msg) + 4, 24, 72), less(width, 2) as int);
    let least = lesser(width as int, 24);
    if wanted < least {
        least as u16
    } else {
        wanted as u16
    }
}

/// What is drawn for a message: a box in the middle of the screen.
#[verifier::opaque]
pub open spec fn toast_scene(msg: Seq<char>, area: Rect) -> Seq<DrawView> {
    let width = toast_width(msg, area.width);
    let height = between(row_estimate(msg, inner_width(width)) + 2, 3, area.height as int);
    let place = in_middle(area, width, height as u16);
    seq![
        DrawView::Clear { area: place },
        DrawView::Text {
            area: place,
            frame: Some(
                panel_in(line_of(seq![(" 提示 "@, bold(theme::PEACH))]), theme::BORDER_POPUP),
            ),
            lines: raw_lines(msg),
            style: colored(theme::TEXT),
            wrap: true,
            align: Alignment::Center,
        },
    ]
}

fn toast_width_of(msg: &str, width: u16) -> (r: u16)
    ensures
        r == toast_width(msg@, width),
{
    let text: usize = text_columns_of(msg);
    let w: u16 = if text < 20 {
        24
    } else if text > 68 {
        72
    } else {
        text as u16 + 4
    };
    let wanted: u16 = min_of(w, width.saturating_sub(2));
    let least: u16 = min_of(width, 24);
    max_of(wanted, least)
}

/// What is drawn for the message, where there is one.
pub open spec fn status_scene(v: AppView, area: Rect) -> Seq<DrawView> {
    match v.status {
        Some((msg, _)) => toast_scene(msg, area),
        None => Seq::empty(),
    }
}

/// Draws the message on a screen of at least three rows, where there is one.
pub fn draw_toast(app: &App, area: Rect) -> (scene: Vec<Draw>)
    requires
        app@.status is Some ==> area.height >= 3,
    ensures
        draw_views(scene@) == status_scene(app@, area),
{
    proof {
        reveal(toast_scene);
    }
    let mut scene: Vec<Draw> = Vec::new();
    match &app.status {
        Some((msg, _)) => {
            let width: u16 = toast_width_of(msg.as_str(), area.width);
            let inner_w: usize = inner_width_of(width);
            let needed: u128 = wrap_lines(msg.as_str(), inner_w) + 2;
            let height: u16 = if needed < 3 {
                3
            } else if needed > area.height as u128 {
                area.height
            } else {
                needed as u16
            };
            let place = in_middle_of(area, width, height);
            let title = StyledLine::one(" 提示 ", theme::in_bold(theme::PEACH));
            add_draw(&mut scene, Draw::Clear { area: place });
            add_draw(
                &mut scene,
                Draw::Text {
                    area: place,
                    frame: Some(theme::popup(title)),
                    lines: raw_lines_of(msg.as_str()),
                    style: theme::in_color(theme::TEXT),
                    wrap: true,
                    align: Alignment::Center,
                },
            );
            assert(draw_views(scene@) == toast_scene(msg@, area));
        },
        None => {
            assert(draw_views(scene@) == Seq::<DrawView>::empty());
        },
    }
    scene
}

// ------------------------------------------------------------ the screen

/// The areas of the parts of the screen.
#[derive(Clone, Copy, PartialEq, Eq, Debug, Structural)]
pub struct Areas {
    pub input: Rect,
    pub list: Rect,
    pub preview: Rect,
    pub path: Rect,
    pub footer: Rect,
}

impl Areas {
    /// Whether all parts lie in an area.
    pub open spec fn within(self, area: Rect) -> bool {
        &&& self.input.within(area)
        &&& self.list.within(area)
        &&& self.preview.within(area)
        &&& self.path.within(area)
        &&& self.footer.within(area)
    }
}

/// The height of the input with its border: one row where it is collapsed, otherwise as many as
/// it has, up to a third of the screen.
pub open spec fn input_height(v: AppView, area: Rect) -> u16 {
    if v.input_expanded {
        (between(
            input_rows(v, area.width).len() as int,
            1,
            at_least_one((area.height / 3) as int),
        ) + 2) as u16
    } else {
        3
    }
}

/// The height of the footer with its border.
pub open spec fn footer_height(width: u16) -> u16 {
    (between(footer_lines(width).len() as int, 1, 4) + 2) as u16
}

/// The full path of the selected result, as it is shown.
pub open spec fn full_path(v: AppView) -> Seq<char> {
    match v.selected_path() {
        Some(path) => sanitized(path),
        None => Seq::empty(),
    }
}

/// The height of the full path with its border, in `width` columns.
pub open spec fn path_height(v: AppView, width: u16) -> u16 {
    (between(row_estimate(full_path(v), inner_width(width)), 1, 6) + 2) as u16
}

/// Whether the screen may be divided from top to bottom into the input, the middle and the
/// footer.
pub open spec fn rows_divided(
    v: AppView,
    area: Rect,
    input: Rect,
    middle: Rect,
    footer: Rect,
) -> bool {
    may_divide(
        true,
        seq![
            Size::Length(input_height(v, area)),
            Size::Min(3),
            Size::Length(footer_height(area.width)),
        ],
        area,
        seq![input, middle, footer],
    )
}

/// Whether the middle may be divided into the list at the left and the rest at the right.
pub open spec fn columns_divided(middle: Rect, list: Rect, right: Rect) -> bool {
    may_divide(
        false,
        seq![Size::Percentage(38), Size::Percentage(62)],
        middle,
        seq![list, right],
    )
}

/// Whether the right may be divided into the preview and the full path below it.
pub open spec fn right_divided(v: AppView, right: Rect, preview: Rect, path: Rect) -> bool {
    may_divide(
        true,
        seq![Size::Min(3), Size::Length(path_height(v, right.width))],
        right,
        seq![preview, path],
    )
}

/// Whether the screen may be divided into `areas`: the input on top, the footer at the bottom,
/// between them the list at the left, and the preview and the full path at the right.
pub open spec fn laid_out(v: AppView, area: Rect, areas: Areas) -> bool {
    exists|middle: Rect, right: Rect|
        {
            &&& #[trigger] rows_divided(v, area, areas.input, middle, areas.footer)
            &&& #[trigger] columns_divided(middle, areas.list, right)
            &&& right_divided(v, right, areas.preview, areas.path)
        }
}

/// Whether the input, the footer and at least three rows between them fit on the screen.
pub open spec fn has_room(v: AppView, area: Rect) -> bool {
    area.on_screen() && input_height(v, area) + 3 + footer_height(area.width) <= area.height
}

/// Whether the parts of a screen that has room have their heights: the input and the footer what
/// they ask for, the list what is left, and, where that is enough for three rows more than the full
/// path asks for, the full path what it asks for and the preview the rest.
pub open spec fn heights_kept(v: AppView, area: Rect, areas: Areas) -> bool {
    has_room(v, area) ==> {
        &&& areas.input.y == area.y
        &&& areas.input.height == input_height(v, area)
        &&& areas.list.y == area.y + input_height(v, area)
        &&& areas.list.height == area.height - input_height(v, area) - footer_height(area.width)
        &&& areas.footer.y == area.y + area.height - footer_height(area.width)
        &&& areas.footer.height == footer_height(area.width)
        &&& path_height(v, areas.path.width) + 3 <= areas.list.height ==> {
            let path_h = path_height(v, areas.path.width);
            &&& areas.preview.y == areas.list.y
            &&& areas.preview.height == areas.list.height - path_h
            &&& areas.path.y == areas.list.y + areas.list.height - path_h
            &&& areas.path.height == path_h
        }
    }
}

/// A screen of sixteen rows has room for the input, however much it holds.
pub proof fn sixteen_rows_are_room(v: AppView, area: Rect)
    requires
        area.on_screen(),
        area.height >= 16,
    ensures
        has_room(v, area),
{
}

/// On a screen that has room, the text of the input takes at most a third of the rows, or one; an
/// input that is collapsed takes one.
pub proof fn input_takes_at_most_a_third(v: AppView, area: Rect, areas: Areas)
    requires
        has_room(v, area),
        heights_kept(v, area, areas),
    ensures
        1 <= areas.input.inside().height <= at_least_one((area.height / 3) as int),
        !v.input_expanded ==> areas.input.inside().height == 1,
        v.input_expanded && input_rows(v, area.width).len() <= area.height / 3
            ==> areas.input.inside().height == at_least_one(input_rows(v, area.width).len() as int),
{
}

/// The state behind drawing the screen.
pub open spec fn screen_drawn(v: AppView, area: Rect, areas: Areas) -> AppView {
    preview_drawn(
        list_drawn(
            input_drawn(
                AppView { input_inner_width: inner_width(area.width), ..v },
                areas.input,
            ),
            areas.list,
        ),
        areas.preview,
    )
}

/// What is drawn for the whole screen.
pub open spec fn screen_scene(v: AppView, area: Rect, areas: Areas, ms: u64) -> Seq<DrawView> {
    let start = AppView { input_inner_width: inner_width(area.width), ..v };
    let with_input = input_drawn(start, areas.input);
    let with_list = list_drawn(with_input, areas.list);
    let end = preview_drawn(with_list, areas.preview);
    input_scene(start, areas.input) + list_scene(with_input, areas.list, ms) + preview_scene(
        with_list,
        areas.preview,
        ms,
    ) + seq![
        path_scene(full_path(with_list), areas.path),
        footer_scene(footer_lines(area.width), areas.footer),
    ] + open_popup_scene(end, area) + status_scene(end, area)
}

fn full_path_of(app: &App) -> (r: String)
    ensures
        r@ == full_path(app@),
{
    match app.selected_item() {
        Some(item) => sanitize_display(item.path.as_str()),
        None => String::new(),
    }
}

fn add_all(scene: &mut Vec<Draw>, more: Vec<Draw>)
    ensures
        draw_views(final(scene)@) == draw_views(old(scene)@) + draw_views(more@),
{
    let mut rest = more;
    scene.append(&mut rest);
    assert(draw_views(scene@) == draw_views(old(scene)@) + draw_views(more@));
}

proof fn drawing_keeps(v: AppView, area: Rect)
    ensures
        input_drawn(v, area).popup == v.popup,
        input_drawn(v, area).status == v.status,
        list_drawn(v, area).popup == v.popup,
        list_drawn(v, area).status == v.status,
        preview_drawn(v, area).popup == v.popup,
        preview_drawn(v, area).status == v.status,
{
    reveal(input_drawn);
    reveal(list_drawn);
    reveal(preview_drawn);
    reveal(AppView::preview_requested);
}

/// Draws the screen, divided into `areas`, at a time in milliseconds.
pub fn draw_areas(app: &mut App, area: Rect, areas: Areas, ms: u64) -> (scene: Vec<Draw>)
    requires
        old(app)@.status is Some ==> area.height >= 3,
    ensures
        draw_views(scene@) == screen_scene(old(app)@, area, areas, ms),
        final(app)@ == screen_drawn(old(app)@, area, areas),
{
    app.input_inner_width = inner_width_of(area.width);
    let ghost start = app@;
    proof {
        drawing_keeps(start, areas.input);
        drawing_keeps(input_drawn(start, areas.input), areas.list);
        drawing_keeps(
            list_drawn(input_drawn(start, areas.input), areas.list),
            areas.preview,
        );
    }
    let mut scene = draw_input(app, areas.input);
    let list = draw_list(app, areas.list, ms);
    add_all(&mut scene, list);
    let path = full_path_of(app);
    let preview = draw_preview(app, areas.preview, ms);
    add_all(&mut scene, preview);
    add_draw(&mut scene, draw_path(path.as_str(), areas.path));
    let keys = build_footer_lines(area.width);
    add_draw(&mut scene, draw_footer(keys, areas.footer));
    let popup = draw_popup(app, area);
    add_all(&mut scene, popup);
    let toast = draw_toast(app, area);
    add_all(&mut scene, toast);
    assert(draw_views(scene@) == screen_scene(old(app)@, area, areas, ms));
    scene
}

fn lay_out(app: &App, area: Rect) -> (areas: Areas)
    ensures
        laid_out(app@, area, areas),
        area.on_screen() ==> areas.within(area),
        heights_kept(app@, area, areas),
{
    let inner_w: usize = inner_width_of(area.width);
    let input_h: u16 = if app.input_expanded {
        let content = wrap_input(app.input.as_str(), inner_w, true);
        assert(texts(content@).len() == content@.len());
        let n: usize = content.len();
        let third: u16 = area.height / 3;
        let most: usize = if third < 1 {
            1
        } else {
            third as usize
        };
        let shown: usize = if n < 1 {
            1
        } else if n > most {
            most
        } else {
            n
        };
        shown as u16 + 2
    } else {
        3
    };
    let keys = build_footer_lines(area.width);
    assert(styled_views(keys@).len() == keys@.len());
    let footer_h: u16 = if keys.len() > 4 {
        6
    } else {
        keys.len() as u16 + 2
    };
    let mut sizes: Vec<Size> = Vec::new();
    sizes.push(Size::Length(input_h));
    sizes.push(Size::Min(3));
    sizes.push(Size::Length(footer_h));
    let ghost whole = seq![Size::Length(input_h), Size::Min(3), Size::Length(footer_h)];
    assert(sizes@ == whole);
    let root = split(true, &sizes, area);
    assert(root@ == seq![root@[0], root@[1], root@[2]]);
    let mut sides: Vec<Size> = Vec::new();
    sides.push(Size::Percentage(38));
    sides.push(Size::Percentage(62));
    assert(sides@ == seq![Size::Percentage(38), Size::Percentage(62)]);
    let middle = split(false, &sides, root[1]);
    assert(middle@ == seq![middle@[0], middle@[1]]);
    let path = full_path_of(app);
    let path_w: usize = inner_width_of(middle[1].width);
    let needed: u128 = wrap_lines(path.as_str(), path_w);
    let path_h: u16 = if needed > 6 {
        8
    } else if needed < 1 {
        3
    } else {
        needed as u16 + 2
    };
    let mut parts: Vec<Size> = Vec::new();
    parts.push(Size::Min(3));
    parts.push(Size::Length(path_h));
    assert(parts@ == seq![Size::Min(3), Size::Length(path_h)]);
    let right = split(true, &parts, middle[1]);
    assert(right@ == seq![right@[0], right@[1]]);
    let areas = Areas {
        input: root[0],
        list: middle[0],
        preview: right[0],
        path: right[1],
        footer: root[2],
    };
    assert(rows_divided(app@, area, areas.input, root@[1], areas.footer));
    assert(columns_divided(root@[1], areas.list, middle@[1]));
    assert(right_divided(app@, middle@[1], areas.preview, areas.path));
    proof {
        reveal_with_fuel(crate::layout::lengths, 4);
        reveal_with_fuel(crate::layout::start_in, 4);
        if has_room(app@, area) {
            assert(sizes@[1] == Size::Min(3));
            assert(fitting(sizes@, area.height as int));
            assert(root@[0].y == area.y && root@[1].y == area.y + input_h);
            assert(root@[2].height == footer_h);
            if path_height(app@, areas.path.width) + 3 <= areas.list.height {
                assert(parts@[0] == Size::Min(3));
                assert(fitting(parts@, middle@[1].height as int));
                assert(right@[0].y == areas.list.y);
                assert(right@[1].height == path_h);
            }
        }
    }
    areas
}

/// Draws the screen at a time in milliseconds: it is divided for the present state, and every
/// part is drawn inside it. A message needs a screen of at least three rows.
pub fn draw(app: &mut App, area: Rect, ms: u64) -> (scene: Vec<Draw>)
    requires
        old(app)@.status is Some ==> area.height >= 3,
    ensures
        exists|areas: Areas|
            {
                &&& #[trigger] laid_out(old(app)@, area, areas)
                &&& area.on_screen() ==> areas.within(area)
                &&& heights_kept(old(app)@, area, areas)
                &&& draw_views(scene@) == screen_scene(old(app)@, area, areas, ms)
                &&& final(app)@ == screen_drawn(old(app)@, area, areas)
            },
{
    let areas = lay_out(app, area);
    draw_areas(app, area, areas, ms)
}

// ------------------------------------------------------------ no control characters

/// Whether `s` holds no control character.
pub open spec fn clean(s: Seq<char>) -> bool {
    forall|i: int| 0 <= i < s.len() ==> !control(#[trigger] s[i])
}

/// The full path of the selected result is shown without control characters.
pub proof fn full_path_is_clean(v: AppView)
    ensures
        clean(full_path(v)),
{
}

proof fn truncated_is_clean(s: Seq<char>, max: int, mark: Seq<char>)
    requires
        clean(s),
        clean(mark),
    ensures
        clean(truncated(s, max, mark)),
{
    if text_columns(s) > max > text_columns(mark) {
        truncated_start_fits(s, max, mark);
        let k = fitting_len(s, max - text_columns(mark), 0);
        let r = truncated(s, max, mark);
        assert forall|i: int| 0 <= i < r.len() implies !control(#[trigger] r[i]) by {
            if i < k {
                assert(r[i] == s[i]);
            } else {
                assert(r[i] == mark[i - k]);
            }
        }
    }
}

/// The name of a result whose text is clean is shown without control characters.
pub proof fn item_name_is_clean(item: ItemView, width: int)
    requires
        clean(item.display),
    ensures
        clean(item_name(item, width)),
{
    reveal_strlit("…");
    assert(clean("…"@));
    truncated_is_clean(
        item.display,
        minus(minus(width, 1), text_columns(badge(item)) as int),
        "…"@,
    );
}

/// The search path in the title of the input, and the query in the title of the list, are shown
/// without control characters.
pub proof fn titles_are_clean(v: AppView, width: u16, titles: int, right: int)
    ensures
        clean(
            truncated(sanitized(path_shown(v.search_path, v.home)), path_room(v, width), "…"@),
        ),
        clean(
            truncated(one_line(decoded(v.last_query)), query_room(v, titles, right), " ..."@),
        ),
{
    reveal_strlit("…");
    reveal_strlit(" ...");
    assert(clean("…"@));
    assert(clean(" ..."@));
    truncated_is_clean(
        sanitized(path_shown(v.search_path, v.home)),
        path_room(v, width),
        "…"@,
    );
    one_line_has_no_control(decoded(v.last_query));
    truncated_is_clean(
        one_line(decoded(v.last_query)),
        query_room(v, titles, right),
        " ..."@,
    );
}

} // verus!
