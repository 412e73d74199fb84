//! What a user sees on the screen: which texts stand where, and in which look.

use crate::escapes::{decoded, sanitized};
use crate::layout::Rect;
use crate::search::{ItemView, SearchMode};
use crate::state::{path_shown, AppView, PopupKind};
use crate::text::{decimal, trim};
use crate::theme;
use crate::theme::{Alignment, LineView, PanelView, Style};
use crate::ui::{
    badge, count_text, cursor_in, expanded_scene, footer_height, footer_lines, footer_scene,
    footer_with, full_path, in_middle, inner_width, input_height, input_panel, input_rows, input_scene,
    input_scroll, input_title, input_cursor, item_lines, item_name, item_text, list_drawn, list_left,
    list_right, list_scene, no_preview, open_popup_scene, path_height, path_room, path_scene,
    placeholder_text, loading_text, popup_lines, popup_offset, popup_room, popup_rows,
    popup_scene, popup_title, popup_visible, popup_width, preview_drawn, preview_scene, raw_lines,
    screen_drawn, screen_scene, scrolled_to, searched, spinner_at, status_scene, toast_scene,
    toast_width, window, DrawView, FooterView,
};
use crate::wrap::{collapsed_column, collapsed_text, one_line, row_estimate, text_columns, truncated};
use vstd::prelude::*;

verus! {

/// Text in a colour, and nothing else.
pub open spec fn plain(fg: u32) -> Style {
    Style { fg: Some(fg), bg: None, bold: false, italic: false }
}

/// Bold text in a colour.
pub open spec fn heavy(fg: u32) -> Style {
    Style { fg: Some(fg), bg: None, bold: true, italic: false }
}

/// Bold text in a colour on a background.
pub open spec fn heavy_on(fg: u32, bg: u32) -> Style {
    Style { fg: Some(fg), bg: Some(bg), bold: true, italic: false }
}

/// Text as it comes.
pub open spec fn bare() -> Style {
    Style { fg: None, bg: None, bold: false, italic: false }
}

/// The colours are those of Catppuccin Macchiato.
pub proof fn colours_are_those_of_macchiato()
    ensures
        theme::TEXT == 0xcad3f5,
        theme::SUBTEXT0 == 0xa5adcb,
        theme::OVERLAY1 == 0x8087a2,
        theme::SURFACE1 == 0x494d64,
        theme::SURFACE2 == 0x5b6078,
        theme::BASE == 0x24273a,
        theme::MAUVE == 0xc6a0f6,
        theme::BLUE == 0x8aadf4,
        theme::SKY == 0x91d7e3,
        theme::GREEN == 0xa6da95,
        theme::YELLOW == 0xeed49f,
        theme::PEACH == 0xf5a97f,
        theme::RED == 0xed8796,
        theme::BORDER == 0x5b6078,
        theme::BORDER_FOCUS == 0x8aadf4,
        theme::BORDER_POPUP == 0xc6a0f6,
        theme::SELECT_BG == 0x494d64,
{
}

// ------------------------------------------------------------ areas

/// A border takes one cell on each side.
pub proof fn borders_take_one_cell(area: Rect)
    requires
        area.on_screen(),
        area.width >= 2,
        area.height >= 2,
    ensures
        area.inside() == (Rect {
            x: (area.x + 1) as u16,
            y: (area.y + 1) as u16,
            width: (area.width - 2) as u16,
            height: (area.height - 2) as u16,
        }),
        area.width > 2 ==> inner_width(area.width) == area.width - 2,
        area.width == 2 ==> inner_width(area.width) == 1,
{
}

/// What stands in the middle has as much room at its left as at its right, and above it as below it,
/// but for one cell.
pub proof fn the_middle_is_in_the_middle(area: Rect, width: u16, height: u16)
    requires
        area.on_screen(),
        width <= area.width,
        height <= area.height,
    ensures
        ({
            let r = in_middle(area, width, height);
            let left = r.x - area.x;
            let right = area.x + area.width - (r.x + r.width);
            let above = r.y - area.y;
            let below = area.y + area.height - (r.y + r.height);
            &&& r.width == width && r.height == height
            &&& 0 <= left <= right <= left + 1
            &&& 0 <= above <= below <= above + 1
        }),
{
}

/// A window shows the elements from its start on, as many as there is room for.
pub proof fn windows_show_what_fits<A>(s: Seq<A>, from: int, n: int, i: int)
    requires
        0 <= from,
        0 <= n,
    ensures
        from >= s.len() ==> window(s, from, n).len() == 0,
        from < s.len() && n <= s.len() - from ==> window(s, from, n).len() == n,
        from < s.len() && n > s.len() - from ==> window(s, from, n).len() == s.len() - from,
        0 <= i < window(s, from, n).len() ==> window(s, from, n)[i] == s[from + i],
{
}

/// Rows are scrolled no more than needed to show one of them: where it is shown already nothing is
/// scrolled, and no more room is left empty than there are rows missing.
pub proof fn rows_are_scrolled_no_more_than_needed(row: int, count: int, height: int, from: int)
    requires
        0 <= row < count,
        height >= 1,
        from >= 0,
    ensures
        ({
            let s = scrolled_to(row, count, height, from);
            &&& s <= row < s + height
            &&& 0 <= s
            &&& s == 0 || s + height <= count
            &&& from <= row < from + height && from + height <= count ==> s == from
            &&& count > height && row < from ==> s == row || s + height == count
            &&& count > height && row >= from + height ==> s + height == row + 1
        }),
{
}

/// The cursor stands behind the border, at its row and column.
pub proof fn the_cursor_stands_inside(area: Rect, row: int, col: int)
    requires
        area.on_screen(),
        0 <= col <= area.width - 3,
        0 <= row <= area.height - 3,
    ensures
        cursor_in(area, row, col) == (DrawView::Cursor {
            x: (area.x + 1 + col) as u16,
            y: (area.y + 1 + row) as u16,
        }),
{
}

/// Plain text stands in its lines, without a look of its own.
pub proof fn plain_text_stands_in_lines(line: Seq<char>, rest: Seq<char>)
    requires
        !line.contains('\n'),
        line.len() > 0,
        line.last() != '\r',
        rest.len() > 0,
    ensures
        raw_lines(line) == seq![
            LineView { spans: seq![(line, bare())], align: Alignment::Left },
        ],
        raw_lines(line + seq!['\n'] + rest) == raw_lines(line) + raw_lines(rest),
        raw_lines(Seq::empty()) == seq![
            LineView { spans: Seq::<(Seq<char>, Style)>::empty(), align: Alignment::Left },
        ],
{
    crate::text_laws::line_feeds_end_lines(line, rest);
    let both = line + seq!['\n'] + rest;
    let f = |l: Seq<char>|
        if l.len() == 0 {
            theme::line_of(Seq::empty())
        } else {
            theme::line_of(seq![(l, theme::raw_style())])
        };
    assert(raw_lines(line) == crate::text::lines(line).map_values(f));
    assert(raw_lines(rest) == crate::text::lines(rest).map_values(f));
    assert(raw_lines(both) == crate::text::lines(both).map_values(f));
    assert((seq![line] + crate::text::lines(rest)).map_values(f) == seq![line].map_values(f)
        + crate::text::lines(rest).map_values(f));
}

// ------------------------------------------------------------ signs

/// The sign that turns has ten frames, each shown for eighty milliseconds.
pub proof fn the_sign_turns(ms: u64)
    ensures
        spinner_at(ms) == seq!['⠋', '⠙', '⠹', '⠸', '⠼', '⠴', '⠦', '⠧', '⠇', '⠏'][(ms as int
            / 80) % 10],
{
    let n = (ms as int / 80) % 10;
    assert(0 <= n < 10);
    assert((ms / 80) as int % 10 == n);
    let all = seq!['⠋', '⠙', '⠹', '⠸', '⠼', '⠴', '⠦', '⠧', '⠇', '⠏'];
    assert(all[n] == spinner_at(ms));
}

/// What stands in for missing content stands in the middle of its area, and says what is missing; a
/// sign turns behind what is under way.
pub proof fn messages_stand_in_the_middle(msg: Seq<char>, height: u16, ms: u64, i: int)
    ensures
        ({
            let p = placeholder_text(msg, height);
            let l = loading_text(msg, height, ms);
            let faint = Style { fg: Some(0x8087a2u32), bg: None, bold: false, italic: true };
            &&& p.len() == height as int / 2 + 1
            &&& l.len() == height as int / 2 + 1
            &&& p.last() == (LineView { spans: seq![(msg, faint)], align: Alignment::Center })
            &&& l.last() == (LineView {
                spans: seq![(msg + " "@, faint), (seq![spinner_at(ms)], plain(0xeed49f))],
                align: Alignment::Center,
            })
            &&& 0 <= i < height as int / 2 ==> p[i].spans.len() == 0 && l[i].spans.len() == 0
        }),
{
}

// ------------------------------------------------------------ the list of results

/// A result is shown by its name, whole where it fits, with the number of its matches behind it where
/// there are any.
pub proof fn results_are_shown_by_name(item: ItemView, width: int)
    ensures
        item.matches == 0 ==> badge(item) == Seq::<char>::empty(),
        item.matches > 0 ==> badge(item) == " ["@ + decimal(item.matches as nat) + "]"@,
        width >= 1 && text_columns(item.display) + text_columns(badge(item)) + 1 <= width
            ==> item_name(item, width) == item.display,
        width >= 1 + text_columns(badge(item)) ==> item_name(item, width) == truncated(
            item.display,
            width - 1 - text_columns(badge(item)),
            "…"@,
        ),
        item_text(item, false, width) == (LineView {
            spans: seq![
                (" "@, bare()),
                (item_name(item, width), plain(0xcad3f5)),
                (badge(item), plain(0xa6da95)),
            ],
            align: Alignment::Left,
        }),
        ({
            let used = 1 + text_columns(item_name(item, width)) + text_columns(badge(item));
            let l = item_text(item, true, width);
            &&& l.align == Alignment::Left
            &&& l.spans.len() == 3
            &&& l.spans[0] == (" "@ + item_name(item, width), heavy_on(0xcad3f5, 0x494d64))
            &&& l.spans[1] == (badge(item), heavy_on(0xa6da95, 0x494d64))
            &&& l.spans[2].1 == heavy_on(0xcad3f5, 0x494d64)
            &&& forall|i: int|
                0 <= i < l.spans[2].0.len() ==> #[trigger] l.spans[2].0[i] == ' '
            &&& used <= width ==> l.spans[2].0.len() == width - used
            &&& used > width ==> l.spans[2].0.len() == 0
        }),
{
}

/// Each result from the first shown one on has a line, in order, as many as there are rows; that of
/// the selected one looks selected, and no other does.
pub proof fn each_result_has_a_line(v: AppView, area: Rect, ms: u64, i: int)
    requires
        area.on_screen(),
        area.height >= 3,
        area.width >= 6,
        v.results.len() > 0,
        v.results.len() <= usize::MAX,
        v.list_offset >= 0,
        v.selected is Some ==> v.selected->0 < v.results.len(),
        0 <= i < area.height - 2,
    ensures
        ({
            let s = list_scene(v, area, ms);
            let from = list_drawn(v, area).list_offset;
            &&& s.len() == 2
            &&& s[0] is Panel && s[0]->Panel_area == area
            &&& s[1] is Text && s[1]->Text_area == area.inside() && s[1]->frame is None
            &&& from >= 0
            &&& v.selected is Some ==> from <= v.selected->0 < from + area.height - 2
            &&& from + i < v.results.len() ==> i < s[1]->lines.len() && s[1]->lines[i] == item_text(
                v.results[from + i],
                v.selected is Some && v.selected->0 == from + i,
                area.width - 2,
            )
            &&& s[1]->lines.len() <= area.height - 2
            &&& s[1]->lines.len() <= v.results.len()
        }),
{
    reveal(list_scene);
    reveal(list_drawn);
    let w = list_drawn(v, area);
    let from = w.list_offset;
    let lines = item_lines(w, from, area.height - 2, area.width - 2);
    windows_show_what_fits(v.results, from, area.height - 2, i);
    if from + i < v.results.len() {
        assert(lines[i] == item_text(
            v.results[from + i],
            v.selected == Some((from + i) as usize),
            area.width - 2,
        ));
    }
}

/// Without results the list says why: a search is running, nothing matches, or nothing was searched.
pub proof fn empty_lists_say_why(v: AppView, area: Rect, ms: u64)
    requires
        area.on_screen(),
        area.height >= 3,
        area.width >= 6,
        v.results.len() == 0,
    ensures
        ({
            let s = list_scene(v, area, ms);
            let h = (area.height - 2) as u16;
            &&& s.len() == 2 && s[1] is Text
            &&& v.searching ==> s[1]->lines == loading_text("搜索中"@, h, ms)
            &&& !v.searching && trim(v.last_query).len() > 0 ==> s[1]->lines == placeholder_text(
                "无匹配结果"@,
                h,
            )
            &&& !v.searching && trim(v.last_query).len() == 0 ==> s[1]->lines == placeholder_text(
                "暂无结果"@,
                h,
            )
        }),
{
    reveal(list_scene);
    reveal(list_drawn);
}

/// The number of results is shown, with a plus sign where a search that is over was stopped at 400 of
/// them; a sign turns while more may come.
pub proof fn results_are_counted(v: AppView, ms: u64)
    ensures
        v.results.len() < 400 || v.searching ==> count_text(v) == decimal(v.results.len()),
        v.results.len() >= 400 && !v.searching ==> count_text(v) == decimal(v.results.len()) + "+"@,
        trim(v.last_query).len() == 0 ==> list_right(v, ms) is None,
        trim(v.last_query).len() > 0 && !v.searching ==> list_right(v, ms) == Some(
            LineView {
                spans: seq![(" "@ + count_text(v) + " 项 "@, plain(0xa5adcb))],
                align: Alignment::Left,
            },
        ),
        trim(v.last_query).len() > 0 && v.searching ==> list_right(v, ms) == Some(
            LineView {
                spans: seq![
                    (" 搜索中 "@, plain(0xeed49f)),
                    (seq![spinner_at(ms)] + " "@, plain(0xeed49f)),
                    (count_text(v) + " 项 "@, plain(0xa5adcb)),
                ],
                align: Alignment::Left,
            },
        ),
{
}

/// The title of the list names the mode and what was searched, with its escapes decoded and on one
/// line, as far as there is room beside the number of results.
pub proof fn the_list_names_what_was_searched(v: AppView, titles: int, right: int)
    ensures
        trim(v.last_query).len() > 0 ==> ({
            let l = list_left(v, titles, right);
            let icon = if v.mode == SearchMode::FileName {
                "\u{F0C7C}"@
            } else {
                "\u{F13B8}"@
            };
            let label = if v.mode == SearchMode::FileName {
                "文件名"@
            } else {
                "文件内容"@
            };
            let look = if v.mode == SearchMode::FileName {
                heavy(0x91d7e3)
            } else {
                heavy(0xc6a0f6)
            };
            let room = titles - right - text_columns(" "@ + icon + " "@) - text_columns(label) - 3;
            let query = one_line(decoded(v.last_query));
            &&& l.align == Alignment::Left
            &&& l.spans.len() == 5
            &&& l.spans[0] == (" "@ + icon + " "@, look)
            &&& l.spans[1] == (label, look)
            &&& l.spans[2] == (": "@, plain(0xa5adcb))
            &&& l.spans[3].1 == heavy(0xeed49f)
            &&& l.spans[4] == (" "@, bare())
            &&& room >= 1 ==> l.spans[3].0 == truncated(query, room, " ..."@)
            &&& room < 1 ==> l.spans[3].0 == truncated(query, 1, " ..."@)
        }),
        trim(v.last_query).len() == 0 ==> list_left(v, titles, right) == (LineView {
            spans: seq![
                (" "@ + "\u{F022}"@ + " "@ + "文件列表"@ + " "@, plain(0xa5adcb)),
            ],
            align: Alignment::Left,
        }),
{
}

/// The columns that the texts of a line take together.
pub open spec fn columns_of_texts(spans: Seq<(Seq<char>, Style)>) -> int
    decreases spans.len(),
{
    if spans.len() == 0 {
        0
    } else {
        text_columns(spans[0].0) + columns_of_texts(spans.drop_first())
    }
}

proof fn texts_take_columns(spans: Seq<(Seq<char>, Style)>)
    ensures
        crate::ui::spans_width(spans) == columns_of_texts(spans),
    decreases spans.len(),
{
    if spans.len() == 1 {
        assert(spans.drop_last() == Seq::<(Seq<char>, Style)>::empty());
        assert(spans.drop_first() == Seq::<(Seq<char>, Style)>::empty());
        assert(crate::ui::spans_width(spans.drop_last()) == 0);
        assert(columns_of_texts(spans.drop_first()) == 0);
    } else if spans.len() > 1 {
        texts_take_columns(spans.drop_last());
        texts_take_columns(spans.drop_first());
        texts_take_columns(spans.drop_first().drop_last());
        assert(spans.drop_last().drop_first() == spans.drop_first().drop_last());
    }
}

/// The panel of the list names what was searched at its left and the number of results at its right,
/// beside each other.
pub proof fn the_list_has_two_titles(v: AppView, area: Rect, ms: u64)
    requires
        area.width >= 2,
    ensures
        ({
            let s = list_scene(v, area, ms);
            let right = list_right(v, ms);
            &&& s.len() >= 1 && s[0] is Panel
            &&& s[0]->Panel_panel.border == 0x5b6078
            &&& s[0]->Panel_panel.bottom is None
            &&& right is None ==> s[0]->Panel_panel.top is None && s[0]->Panel_panel.title == list_left(
                v,
                area.width - 2,
                0,
            )
            &&& right is Some ==> s[0]->Panel_panel.top == Some(
                LineView { spans: right->0.spans, align: Alignment::Right },
            ) && s[0]->Panel_panel.title == list_left(
                v,
                area.width - 2,
                columns_of_texts(right->0.spans),
            )
        }),
{
    reveal(list_scene);
    if list_right(v, ms) is Some {
        texts_take_columns(list_right(v, ms)->0.spans);
    }
}

// ------------------------------------------------------------ the preview

/// The preview takes the size of its area. One that is not that of the selected result is not shown;
/// that of the selected one is asked for instead, or shown where it is kept.
pub proof fn previews_follow_the_selection(v: AppView, area: Rect)
    requires
        area.width >= 3,
        area.height >= 3,
    ensures
        ({
            let w = preview_drawn(v, area);
            &&& w.preview_width == area.width - 2
            &&& w.preview_height == area.height - 2
            &&& w.results == v.results && w.selected == v.selected && w.input == v.input
            &&& v.preview is Some && v.preview_path is Some && v.selected is Some && v.selected->0
                < v.results.len() && !crate::paths::same_path(
                v.preview_path->0,
                v.results[v.selected->0 as int].path,
            ) ==> w.preview_path == Some(v.results[v.selected->0 as int].path) && w.preview_gen
                != v.preview_gen
            &&& v.preview is None ==> w.preview is None && w.preview_gen == v.preview_gen && w.effects
                == v.effects
        }),
{
    reveal(preview_drawn);
    reveal(AppView::preview_requested);
}

/// Text is scrolled no further than to its last line, and as far as was asked for until then; a picture
/// takes the place inside the border, and is not scrolled.
pub proof fn previews_are_scrolled_within_their_lines(v: AppView, area: Rect)
    requires
        v.preview is Some,
        crate::state::same_opt_path(v.preview_path, v.selected_path()),
    ensures
        ({
            let w = preview_drawn(v, area);
            let h = area.inside().height;
            &&& w.preview == v.preview
            &&& v.preview is Some && v.preview->0 is Text ==> {
                let n = v.preview->0->Text_0.len();
                &&& w.image_area is None
                &&& n <= h ==> w.preview_scroll == 0 && w.preview_max_scroll == 0
                &&& h < n <= h + 0xffff ==> w.preview_max_scroll == n - h
                &&& h < n <= h + 0xffff && v.preview_scroll <= n - h ==> w.preview_scroll
                    == v.preview_scroll
                &&& h < n <= h + 0xffff && v.preview_scroll > n - h ==> w.preview_scroll == n - h
            }
            &&& v.preview is Some && v.preview->0 is Image ==> w.image_area == Some(area.inside())
                && w.preview_scroll == 0 && w.preview_max_scroll == 0
        }),
{
    reveal(preview_drawn);
}

/// The text of the preview is drawn from the line it is scrolled to; where a picture stands, the place
/// is cleared for it.
pub proof fn previews_are_drawn_in_their_panel(v: AppView, area: Rect, ms: u64)
    ensures
        ({
            let s = preview_scene(v, area, ms);
            let w = preview_drawn(v, area);
            let panel = PanelView {
                title: LineView {
                    spans: seq![(" "@ + "\u{F0208}"@ + " "@ + "预览"@ + " "@, plain(0xa5adcb))],
                    align: Alignment::Left,
                },
                top: None,
                bottom: None,
                border: 0x5b6078,
            };
            &&& w.preview is Some && w.preview->0 is Text ==> s == seq![
                DrawView::Preview { area, panel, scroll: w.preview_scroll },
            ]
            &&& w.preview is Some && w.preview->0 is Image ==> s == seq![
                DrawView::Panel { area, panel },
                DrawView::Clear { area: area.inside() },
            ]
            &&& w.preview is None && (area.height <= 2 || area.width <= 2) ==> s == seq![
                DrawView::Panel { area, panel },
            ]
            &&& w.preview is None && area.height > 2 && area.width > 2 ==> s == seq![
                DrawView::Panel { area, panel },
                DrawView::Text {
                    area: area.inside(),
                    frame: None,
                    lines: no_preview(w, (area.height - 2) as u16, ms),
                    style: bare(),
                    wrap: false,
                    align: Alignment::Left,
                },
            ]
        }),
{
    reveal(preview_scene);
}

/// Where there is no preview, it is said why.
pub proof fn missing_previews_are_explained(v: AppView, height: u16, ms: u64)
    ensures
        v.preview_loading ==> no_preview(v, height, ms) == loading_text("加载中"@, height, ms),
        !v.preview_loading && v.selected is Some && v.selected->0 < v.results.len() ==> no_preview(
            v,
            height,
            ms,
        ) == placeholder_text("无法预览该文件"@, height),
        !v.preview_loading && v.selected is None && v.searching ==> no_preview(v, height, ms)
            == loading_text("搜索中"@, height, ms),
        !v.preview_loading && v.selected is None && !v.searching && trim(v.last_query).len() > 0
            ==> no_preview(v, height, ms) == placeholder_text("无匹配结果"@, height),
        !v.preview_loading && v.selected is None && !v.searching && trim(v.last_query).len() == 0
            ==> no_preview(v, height, ms) == placeholder_text("暂无预览"@, height),
{
}

// ------------------------------------------------------------ the path and the keys

/// The full path that is shown is that of the selected result, without control characters.
pub proof fn the_path_is_that_of_the_selected(v: AppView, area: Rect)
    ensures
        v.selected is Some && v.selected->0 < v.results.len() ==> full_path(v) == sanitized(
            v.results[v.selected->0 as int].path,
        ),
        v.selected is None ==> full_path(v) == Seq::<char>::empty(),
        path_scene(full_path(v), area) == (DrawView::Text {
            area,
            frame: Some(
                PanelView {
                    title: LineView {
                        spans: seq![
                            (" "@ + "\u{F0216}"@ + " "@ + "完整路径"@ + " "@, plain(0xa5adcb)),
                        ],
                        align: Alignment::Left,
                    },
                    top: None,
                    bottom: None,
                    border: 0x5b6078,
                },
            ),
            lines: raw_lines(full_path(v)),
            style: plain(0x91d7e3),
            wrap: true,
            align: Alignment::Left,
        }),
{
}

/// Whether a line holds the entry of a key: the key, and behind it what it does.
pub open spec fn has_entry(l: LineView, key: Seq<char>, note: Seq<char>) -> bool {
    exists|k: int|
        0 <= k < l.spans.len() - 1 && #[trigger] l.spans[k] == (key, heavy(0xeed49f))
            && l.spans[k + 1] == (note, plain(0x8087a2))
}

/// Whether one of the lines holds the entry of a key.
pub open spec fn some_has_entry(lines: Seq<LineView>, key: Seq<char>, note: Seq<char>) -> bool {
    exists|i: int| 0 <= i < lines.len() && has_entry(#[trigger] lines[i], key, note)
}

spec fn all_lines(f: FooterView) -> Seq<LineView> {
    f.done.push(theme::line_of(f.open))
}

proof fn entry_is_kept(n: int, m: int, room: int)
    requires
        0 <= n < m <= 11,
    ensures
        some_has_entry(
            all_lines(footer_with(m, room)),
            crate::ui::footer_key(n).0,
            crate::ui::footer_note(n).0,
        ),
        footer_with(m, room).open.len() > 0,
    decreases m,
{
    let key = crate::ui::footer_key(n).0;
    let note = crate::ui::footer_note(n).0;
    let f = footer_with(m - 1, room);
    let g = footer_with(m, room);
    let all = all_lines(g);
    let last = all[all.len() - 1];
    assert(last.spans == g.open);
    if n == m - 1 {
        let k = g.open.len() - 2;
        assert(last.spans[k] == (key, heavy(0xeed49f)));
        assert(last.spans[k + 1] == (note, plain(0x8087a2)));
        assert(has_entry(last, key, note));
        assert(some_has_entry(all, key, note));
    } else {
        entry_is_kept(n, m - 1, room);
        let before = all_lines(f);
        let i = choose|i: int| 0 <= i < before.len() && has_entry(#[trigger] before[i], key, note);
        if i < f.done.len() {
            assert(before[i] == f.done[i]);
            assert(all[i] == f.done[i]);
        } else {
            let l = before[i];
            assert(l.spans == f.open);
            let k = choose|k: int|
                0 <= k < l.spans.len() - 1 && #[trigger] l.spans[k] == (key, heavy(0xeed49f))
                    && l.spans[k + 1] == (note, plain(0x8087a2));
            assert(all[i].spans[k] == l.spans[k]);
            assert(all[i].spans[k + 1] == l.spans[k + 1]);
            assert(has_entry(all[i], key, note));
        }
        assert(some_has_entry(all, key, note));
    }
}

/// Every key stands in the footer with what it does, however wide the screen is.
pub proof fn the_footer_names_every_key(width: u16)
    ensures
        some_has_entry(footer_lines(width), "Tab"@, ":切换模式"@),
        some_has_entry(footer_lines(width), "Ctrl+H"@, ":展开/折叠输入框"@),
        some_has_entry(footer_lines(width), "Ctrl+P"@, ":搜索路径"@),
        some_has_entry(footer_lines(width), "Ctrl+I"@, ":忽略目录"@),
        some_has_entry(footer_lines(width), "Ctrl+S"@, ":文件大小上限"@),
        some_has_entry(footer_lines(width), "Alt+J/K"@, ":文件选择"@),
        some_has_entry(footer_lines(width), "Ctrl+J/K"@, ":滚动预览"@),
        some_has_entry(footer_lines(width), "Ctrl+G"@, ":打开文件"@),
        some_has_entry(footer_lines(width), "Ctrl+C"@, ":复制路径"@),
        some_has_entry(footer_lines(width), "Esc"@, ":取消/退出"@),
        some_has_entry(footer_lines(width), "Enter"@, ":搜索"@),
{
    let room = inner_width(width);
    entry_is_kept(0, 11, room);
    entry_is_kept(1, 11, room);
    entry_is_kept(2, 11, room);
    entry_is_kept(3, 11, room);
    entry_is_kept(4, 11, room);
    entry_is_kept(5, 11, room);
    entry_is_kept(6, 11, room);
    entry_is_kept(7, 11, room);
    entry_is_kept(8, 11, room);
    entry_is_kept(9, 11, room);
    entry_is_kept(10, 11, room);
}

/// An entry of the footer stands behind the last one, two spaces apart, where it fits into the line,
/// and starts a new line only where it does not.
pub proof fn footer_lines_are_filled(
    f: FooterView,
    key: (Seq<char>, Style),
    note: (Seq<char>, Style),
    room: int,
)
    requires
        f.open.len() > 0,
    ensures
        ({
            let own = text_columns(key.0) + text_columns(note.0);
            let g = crate::ui::with_entry(f, key, note, room);
            &&& f.width + 2 + own <= room ==> g.done == f.done && g.open == f.open + seq![
                ("  "@, bare()),
                key,
                note,
            ] && g.width == f.width + 2 + own
            &&& f.width + 2 + own > room ==> g.done == f.done.push(
                LineView { spans: f.open, align: Alignment::Left },
            ) && g.open == seq![key, note] && g.width == own
        }),
{
    assert(f.open.push(("  "@, bare())).push(key).push(note) == f.open + seq![
        ("  "@, bare()),
        key,
        note,
    ]);
}

/// The footer stands in a plain border.
pub proof fn the_footer_has_a_border(lines: Seq<LineView>, area: Rect)
    ensures
        footer_scene(lines, area) == (DrawView::Text {
            area,
            frame: Some(
                PanelView {
                    title: LineView {
                        spans: Seq::<(Seq<char>, Style)>::empty(),
                        align: Alignment::Left,
                    },
                    top: None,
                    bottom: None,
                    border: 0x5b6078,
                },
            ),
            lines,
            style: bare(),
            wrap: false,
            align: Alignment::Left,
        }),
{
}

// ------------------------------------------------------------ the input

/// The title of the input tells whether it is expanded, the mode, and the search path, whole where
/// there is room for it.
pub proof fn the_input_tells_mode_and_path(v: AppView, width: u16)
    ensures
        ({
            let l = input_title(v, width);
            let file = v.mode == SearchMode::FileName;
            let look = if file {
                heavy(0x91d7e3)
            } else {
                heavy(0xc6a0f6)
            };
            let shown = sanitized(path_shown(v.search_path, v.home));
            &&& l.align == Alignment::Left
            &&& l.spans.len() == 10
            &&& v.input_expanded ==> l.spans[0] == (
                " "@ + "\u{F42D}"@ + " "@ + "展开"@,
                heavy(0xa6da95),
            )
            &&& !v.input_expanded ==> l.spans[0] == (
                " "@ + "\u{F48C}"@ + " "@ + "收起"@,
                heavy(0xf5a97f),
            )
            &&& file ==> l.spans[2] == ("\u{F0C7C}"@, look) && l.spans[4] == ("文件名"@, look)
            &&& !file ==> l.spans[2] == ("\u{F13B8}"@, look) && l.spans[4] == ("文件内容"@, look)
            &&& l.spans[6] == ("\u{F0968}"@, heavy(0xeed49f))
            &&& l.spans[8].1 == heavy(0xeed49f)
            &&& text_columns(shown) <= path_room(v, width) ==> l.spans[8].0 == shown
            &&& l.spans[8].0 == truncated(shown, path_room(v, width), "…"@)
            &&& l.spans[1] == (" "@, bare()) && l.spans[3] == (" "@, bare()) && l.spans[5] == (
                " "@,
                bare(),
            ) && l.spans[7] == (" "@, bare()) && l.spans[9] == (" "@, bare())
            &&& path_room(v, width) >= 4
        }),
{
}

/// The search path gets the columns of the title that are left by the other texts of it, by one column
/// at its end, and by the hint to search where that is there; four where fewer are left.
pub proof fn the_path_gets_the_room_that_is_left(v: AppView, width: u16)
    requires
        width >= 2,
    ensures
        ({
            let l = input_title(v, width);
            let texts = columns_of_texts(l.spans) - text_columns(l.spans[8].0);
            let hint: int = if trim(v.input) != trim(v.last_query) {
                12
            } else {
                0
            };
            let left = width - 2 - texts - hint - 1;
            &&& left >= 4 ==> path_room(v, width) == left
            &&& left < 4 ==> path_room(v, width) == 4
        }),
{
    let s = input_title(v, width).spans;
    reveal_with_fuel(columns_of_texts, 11);
    assert(s.drop_first()[0] == s[1]);
    let a = s.drop_first();
    assert(a.drop_first()[0] == s[2]);
    let b = a.drop_first();
    assert(b.drop_first()[0] == s[3]);
    let c = b.drop_first();
    assert(c.drop_first()[0] == s[4]);
    let d = c.drop_first();
    assert(d.drop_first()[0] == s[5]);
    let e = d.drop_first();
    assert(e.drop_first()[0] == s[6]);
    let f = e.drop_first();
    assert(f.drop_first()[0] == s[7]);
    let g = f.drop_first();
    assert(g.drop_first()[0] == s[8]);
    let h = g.drop_first();
    assert(h.drop_first()[0] == s[9]);
    assert(h.drop_first().drop_first().len() == 0);
}

/// The hint to search is there exactly where the input is not what was searched last; the hint on line
/// breaks where contents are searched; the border is that of the focus while no popup is open.
pub proof fn the_input_hints_at_searching(v: AppView, width: u16)
    ensures
        ({
            let p = input_panel(v, width);
            &&& p.title == input_title(v, width)
            &&& trim(v.input) == trim(v.last_query) ==> p.top is None
            &&& trim(v.input) != trim(v.last_query) ==> p.top == Some(
                LineView {
                    spans: seq![(" Enter 搜索 "@, heavy_on(0x24273a, 0xf5a97f))],
                    align: Alignment::Right,
                },
            )
            &&& v.mode == SearchMode::FileName ==> p.bottom is None
            &&& v.mode == SearchMode::Content ==> p.bottom == Some(
                LineView {
                    spans: seq![(" Shift+Enter 或 \\n 换行 \\\\ 反斜杠 "@, plain(0x8087a2))],
                    align: Alignment::Right,
                },
            )
            &&& v.popup is None ==> p.border == 0x8aadf4
            &&& v.popup is Some ==> p.border == 0x5b6078
        }),
{
}

/// Drawing an expanded input scrolls it to its cursor, and changes nothing else; drawing a collapsed
/// one changes nothing.
pub proof fn drawing_scrolls_the_input(v: AppView, area: Rect)
    requires
        v.cursor >= 0,
        v.input_scroll >= 0,
        area.height >= 3,
    ensures
        ({
            let w = crate::ui::input_drawn(v, area);
            let row = input_cursor(v, area.width).0;
            &&& w == (AppView { input_scroll: w.input_scroll, ..v })
            &&& !v.input_expanded ==> w == v
            &&& v.input_expanded ==> w.input_scroll <= row < w.input_scroll + area.height - 2
            &&& v.input_expanded ==> w.input_scroll == input_scroll(v, area)
        }),
{
    reveal(crate::ui::input_drawn);
    crate::ui::input_cursor_is_shown(v, area);
}

/// An expanded input shows the rows of the query from the one it is scrolled to; a collapsed one shows
/// it on one line. The cursor is drawn last, and only while no popup is open.
pub proof fn the_input_shows_the_query(v: AppView, area: Rect, i: int)
    requires
        v.cursor >= 0,
        v.input_scroll >= 0,
        area.width >= 3,
        area.height >= 3,
        0 <= i < area.height - 2,
    ensures
        ({
            let s = input_scene(v, area);
            let r = crate::wrap::rows(decoded(v.input), area.width - 2);
            let from = input_scroll(v, area);
            let row = input_cursor(v, area.width).0;
            let col = input_cursor(v, area.width).1;
            &&& s.len() >= 1 && s[0] is Text && s[0]->Text_area == area
            &&& s[0]->frame == Some(input_panel(v, area.width))
            &&& s[0]->style == plain(0xcad3f5)
            &&& v.input_expanded && from + i < r.len() ==> i < s[0]->lines.len() && s[0]->lines[i] == (
            LineView { spans: seq![(r[from + i], bare())], align: Alignment::Left })
            &&& !v.input_expanded ==> s[0]->lines == seq![
                LineView {
                    spans: seq![(collapsed_text(v.input, area.width - 2), bare())],
                    align: Alignment::Left,
                },
            ]
            &&& v.popup is Some ==> !(s.last() is Cursor)
            &&& v.popup is None && v.input_expanded ==> s.last() == cursor_in(area, row - from, col)
            &&& v.popup is None && !v.input_expanded ==> s.last() == cursor_in(
                area,
                0,
                collapsed_column(v.input, v.cursor, area.width - 2),
            )
            &&& !v.input_expanded ==> s.len() <= 2
            &&& v.input_expanded && r.len() <= area.height - 2 ==> s.len() <= 2
        }),
{
    reveal(input_scene);
    crate::ui::input_cursor_is_shown(v, area);
    let r = input_rows(v, area.width);
    let from = input_scroll(v, area);
    crate::wrap::cursor_on_a_row(
        decoded(v.input),
        crate::wrap::shown_cursor(v.input, v.cursor, true),
        inner_width(area.width),
    );
    rows_are_scrolled_no_more_than_needed(
        input_cursor(v, area.width).0,
        r.len() as int,
        area.height - 2,
        v.input_scroll,
    );
    windows_show_what_fits(r, from, area.height - 2, i);
    if v.input_expanded {
        assert(input_scene(v, area) == expanded_scene(v, area));
    }
}

// ------------------------------------------------------------ popups and messages

/// A popup is three fifths as wide as the screen, but not narrower than 24 columns, nor wider than 72
/// or the screen.
pub proof fn popups_have_their_width(width: u16)
    ensures
        width <= 24 ==> popup_width(width) == width,
        24 < width <= 40 ==> popup_width(width) == 24,
        40 < width < 120 ==> popup_width(width) == width as int * 3 / 5,
        width >= 120 ==> popup_width(width) == 72,
{
}

/// Each popup has its title.
pub proof fn popups_have_their_titles()
    ensures
        popup_title(PopupKind::Path) == (LineView {
            spans: seq![
                (" 搜索路径 "@, heavy(0xc6a0f6)),
                ("(Enter 确认 / Esc 取消，支持 ~)"@, plain(0x8087a2)),
                (" "@, bare()),
            ],
            align: Alignment::Left,
        }),
        popup_title(PopupKind::IgnoreDirs) == (LineView {
            spans: seq![
                (" 忽略目录 "@, heavy(0xf5a97f)),
                ("(每行一个 / Enter 确认)"@, plain(0x8087a2)),
                (" "@, bare()),
            ],
            align: Alignment::Left,
        }),
        popup_title(PopupKind::MaxSize) == (LineView {
            spans: seq![
                (" 文件大小上限(M) "@, heavy(0xa6da95)),
                ("(数字，Enter 确认 / Esc 取消)"@, plain(0x8087a2)),
                (" "@, bare()),
            ],
            align: Alignment::Left,
        }),
{
}

/// The rows of a popup are those of its text, decoded where it holds several lines; as many are shown
/// as fit on a screen of some height, and an error takes one of their lines.
pub proof fn popups_show_their_text(v: AppView, kind: PopupKind, width: u16, height: u16)
    requires
        width >= 3,
    ensures
        kind == PopupKind::IgnoreDirs ==> popup_rows(v, kind, width) == crate::wrap::rows(
            decoded(v.popup_input),
            width - 2,
        ),
        kind != PopupKind::IgnoreDirs ==> popup_rows(v, kind, width) == crate::wrap::rows(
            v.popup_input,
            width - 2,
        ),
        v.popup_error is None && height >= 20 ==> popup_room(v, height) == 16,
        v.popup_error is Some && height >= 20 ==> popup_room(v, height) == 15,
        v.popup_error is None && 5 <= height <= 20 ==> popup_room(v, height) == height - 4,
        v.popup_error is Some && 6 <= height <= 20 ==> popup_room(v, height) == height - 5,
        height <= 5 ==> popup_room(v, height) == 1,
{
}

/// A popup stands in the middle of the screen over what was there, and is as high as its text, its
/// error and its border. It shows its rows from the first shown one on, selected text in the look of
/// the selected, and the error below them in red.
pub proof fn popups_are_drawn_in_the_middle(v: AppView, kind: PopupKind, area: Rect, i: int)
    requires
        area.on_screen(),
        v.popup_cursor >= 0,
        area.width >= 3,
        0 <= i < popup_visible(v, kind, area),
    ensures
        ({
            let s = popup_scene(v, kind, area);
            let rows = popup_rows(v, kind, popup_width(area.width));
            let from = popup_offset(v, kind, area);
            let shown = popup_visible(v, kind, area);
            let more: int = if v.popup_error is Some {
                3
            } else {
                2
            };
            let place = in_middle(area, popup_width(area.width), (shown + more) as u16);
            let at = crate::ui::popup_cursor(v, kind, popup_width(area.width));
            &&& s.len() == 3
            &&& s[0] == (DrawView::Clear { area: place })
            &&& s[1] is Text && s[1]->Text_area == place
            &&& s[1]->frame == Some(
                PanelView { title: popup_title(kind), top: None, bottom: None, border: 0xc6a0f6 },
            )
            &&& from + i < rows.len()
            &&& i < s[1]->lines.len()
            &&& !v.popup_select_all ==> s[1]->lines[i] == (LineView {
                spans: seq![(rows[from + i], plain(0xcad3f5))],
                align: Alignment::Left,
            })
            &&& v.popup_select_all ==> s[1]->lines[i] == (LineView {
                spans: seq![(rows[from + i], heavy_on(0xcad3f5, 0x494d64))],
                align: Alignment::Left,
            })
            &&& v.popup_error is Some ==> s[1]->lines.last() == (LineView {
                spans: seq![(v.popup_error->0, plain(0xed8796))],
                align: Alignment::Left,
            })
            &&& s[2] == cursor_in(place, at.0 - from, at.1)
            &&& from <= at.0 < from + shown
        }),
{
    reveal(popup_scene);
    crate::ui::popup_cursor_is_shown(v, kind, area);
    let width = popup_width(area.width);
    let rows = popup_rows(v, kind, width);
    let from = popup_offset(v, kind, area);
    let room = popup_room(v, area.height);
    windows_show_what_fits(rows, from, room, i);
    let lines = popup_lines(v, rows, from, room);
    assert(window(rows, from, room).len() == popup_visible(v, kind, area));
    assert(lines[i].spans[0].0 == window(rows, from, room)[i]);
}

/// A message is drawn as wide as its text with its border, but not narrower than 24 columns where the
/// screen is that wide, nor wider than 72 or the screen.
pub proof fn messages_have_their_width(msg: Seq<char>, width: u16)
    ensures
        width >= 74 && 20 <= text_columns(msg) <= 68 ==> toast_width(msg, width) == text_columns(msg)
            + 4,
        width >= 74 && text_columns(msg) < 20 ==> toast_width(msg, width) == 24,
        width >= 74 && text_columns(msg) > 68 ==> toast_width(msg, width) == 72,
        24 <= toast_width(msg, width) <= 72 || toast_width(msg, width) == width,
        toast_width(msg, width) <= width,
{
}

/// A message is shown in the middle of the screen over what was there, and nothing is without one.
pub proof fn messages_are_shown(v: AppView, area: Rect, msg: Seq<char>, since: u64)
    requires
        area.height >= 3,
    ensures
        v.status is None ==> status_scene(v, area) == Seq::<DrawView>::empty(),
        v.status == Some((msg, since)) ==> ({
            let s = status_scene(v, area);
            let w = toast_width(msg, area.width);
            let need = row_estimate(msg, inner_width(w)) + 2;
            let h = if need > area.height {
                area.height as int
            } else {
                need
            };
            &&& s.len() == 2
            &&& row_estimate(msg, inner_width(w)) >= 1 ==> s[0] == (DrawView::Clear {
                area: in_middle(area, w, h as u16),
            })
            &&& s[0] is Clear && s[1] is Text && s[1]->Text_area == s[0]->Clear_area
            &&& s[1]->lines == raw_lines(msg)
            &&& s[1]->wrap && s[1]->align == Alignment::Center && s[1]->style == plain(0xcad3f5)
            &&& s[1]->frame == Some(
                PanelView {
                    title: LineView {
                        spans: seq![(" 提示 "@, heavy(0xf5a97f))],
                        align: Alignment::Left,
                    },
                    top: None,
                    bottom: None,
                    border: 0xc6a0f6,
                },
            )
        }),
{
    reveal(toast_scene);
}

// ------------------------------------------------------------ the screen

/// The heights that the parts ask for: the input one row or as many as the query has, up to a third of
/// the screen; the footer up to four lines; the full path up to six rows; and each its border.
pub proof fn parts_ask_for_their_heights(v: AppView, area: Rect, width: u16)
    requires
        area.height >= 3,
        area.width >= 3,
        width >= 3,
    ensures
        !v.input_expanded ==> input_height(v, area) == 3,
        v.input_expanded ==> ({
            let n = crate::wrap::rows(decoded(v.input), area.width - 2).len();
            let third = area.height as int / 3;
            &&& n <= third ==> input_height(v, area) == n + 2
            &&& n > third ==> input_height(v, area) == third + 2
        }),
        1 <= footer_lines(width).len() <= 4 ==> footer_height(width) == footer_lines(width).len() + 2,
        footer_lines(width).len() > 4 ==> footer_height(width) == 6,
        ({
            let n = row_estimate(full_path(v), width - 2);
            &&& 1 <= n <= 6 ==> path_height(v, width) == n + 2
            &&& n > 6 ==> path_height(v, width) == 8
        }),
{
    crate::wrap::rows_nonempty(decoded(v.input), area.width - 2);
}

/// Every part is drawn in its area, one after the other, and popups and messages over them all.
pub proof fn every_part_is_drawn(v: AppView, area: Rect, areas: crate::ui::Areas, ms: u64)
    requires
        area.width >= 3,
    ensures
        ({
            let all = screen_scene(v, area, areas, ms);
            let start = AppView { input_inner_width: area.width - 2, ..v };
            let behind_input = crate::ui::input_drawn(start, areas.input);
            let behind_list = list_drawn(behind_input, areas.list);
            let end = screen_drawn(v, area, areas);
            let a = input_scene(start, areas.input);
            let b = list_scene(behind_input, areas.list, ms);
            let c = preview_scene(behind_list, areas.preview, ms);
            let d = open_popup_scene(end, area);
            let e = status_scene(end, area);
            let n = (a.len() + b.len() + c.len()) as int;
            &&& all.len() == n + 2 + d.len() + e.len()
            &&& all.take(a.len() as int) == a
            &&& all.subrange(a.len() as int, (a.len() + b.len()) as int) == b
            &&& all.subrange((a.len() + b.len()) as int, n) == c
            &&& all[n] == path_scene(full_path(behind_list), areas.path)
            &&& all[n + 1] == footer_scene(footer_lines(area.width), areas.footer)
            &&& all.subrange(n + 2, n + 2 + d.len()) == d
            &&& all.skip(n + 2 + d.len()) == e
            &&& end == preview_drawn(behind_list, areas.preview)
            &&& v.popup is None ==> open_popup_scene(v, area).len() == 0
            &&& v.popup is Some ==> open_popup_scene(v, area) == popup_scene(v, v.popup->0, area)
        }),
{
}

} // verus!
