//! The colours of Catppuccin Macchiato, and the styles of the parts of the screen.

use vstd::prelude::*;

verus! {

/// A colour, as the number with the hexadecimal digits `rrggbb`.
pub type Color = u32;

/// Ordinary text.
pub const TEXT: Color = 0xcad3f5;

/// Titles of less weight.
pub const SUBTEXT0: Color = 0xa5adcb;

/// Faint hints.
pub const OVERLAY1: Color = 0x8087a2;

/// The background of the selected line.
pub const SURFACE1: Color = 0x494d64;

/// The borders of panels.
pub const SURFACE2: Color = 0x5b6078;

/// The darkest background.
pub const BASE: Color = 0x24273a;

pub const MAUVE: Color = 0xc6a0f6;

pub const BLUE: Color = 0x8aadf4;

pub const SKY: Color = 0x91d7e3;

pub const GREEN: Color = 0xa6da95;

pub const YELLOW: Color = 0xeed49f;

pub const PEACH: Color = 0xf5a97f;

pub const RED: Color = 0xed8796;

/// The border of a panel without the focus.
pub const BORDER: Color = SURFACE2;

/// The border of the panel with the focus.
pub const BORDER_FOCUS: Color = BLUE;

/// The border of a popup.
pub const BORDER_POPUP: Color = MAUVE;

/// The background of the selected line.
pub const SELECT_BG: Color = SURFACE1;

/// How text looks; what is not set is left as it is.
#[derive(Clone, Copy, PartialEq, Eq, Debug, Structural)]
pub struct Style {
    pub fg: Option<Color>,
    pub bg: Option<Color>,
    pub bold: bool,
    pub italic: bool,
}

/// Text that is left as it is.
pub open spec fn raw_style() -> Style {
    Style { fg: None, bg: None, bold: false, italic: false }
}

/// Text in a colour.
pub open spec fn colored(fg: Color) -> Style {
    Style { fg: Some(fg), ..raw_style() }
}

/// Bold text in a colour.
pub open spec fn bold(fg: Color) -> Style {
    Style { fg: Some(fg), bold: true, ..raw_style() }
}

/// Gives the style of text that is left as it is.
pub fn raw() -> (s: Style)
    ensures
        s == raw_style(),
{
    Style { fg: None, bg: None, bold: false, italic: false }
}

/// Gives the style of text in a colour.
pub fn in_color(fg: Color) -> (s: Style)
    ensures
        s == colored(fg),
{
    Style { fg: Some(fg), bg: None, bold: false, italic: false }
}

/// Gives the style of bold text in a colour.
pub fn in_bold(fg: Color) -> (s: Style)
    ensures
        s == bold(fg),
{
    Style { fg: Some(fg), bg: None, bold: true, italic: false }
}

/// Bold text in a colour on a background.
pub open spec fn bold_on(fg: Color, bg: Color) -> Style {
    Style { fg: Some(fg), bg: Some(bg), bold: true, italic: false }
}

/// Gives the style of bold text in a colour on a background.
pub fn in_bold_on(fg: Color, bg: Color) -> (s: Style)
    ensures
        s == bold_on(fg, bg),
{
    Style { fg: Some(fg), bg: Some(bg), bold: true, italic: false }
}

/// The style of titles.
pub open spec fn title_look() -> Style {
    colored(SUBTEXT0)
}

/// Gives the style of titles.
pub fn title_style() -> (s: Style)
    ensures
        s == title_look(),
{
    in_color(SUBTEXT0)
}

/// The style of what stands in for missing content.
pub open spec fn placeholder_look() -> Style {
    Style { fg: Some(OVERLAY1), italic: true, ..raw_style() }
}

/// Gives the style of what stands in for missing content.
pub fn placeholder() -> (s: Style)
    ensures
        s == placeholder_look(),
{
    Style { fg: Some(OVERLAY1), bg: None, bold: false, italic: true }
}

/// The style of the selected line.
pub open spec fn selected_look() -> Style {
    bold_on(TEXT, SELECT_BG)
}

/// Gives the style of the selected line.
pub fn selected() -> (s: Style)
    ensures
        s == selected_look(),
{
    in_bold_on(TEXT, SELECT_BG)
}

// ------------------------------------------------------------ styled text

/// Text in one style.
#[derive(Debug)]
pub struct StyledSpan {
    pub text: String,
    pub style: Style,
}

/// Where a line stands in its area.
#[derive(Clone, Copy, PartialEq, Eq, Debug, Structural)]
pub enum Alignment {
    Left,
    Center,
    Right,
}

/// A line of styled text.
#[derive(Debug)]
pub struct StyledLine {
    pub spans: Vec<StyledSpan>,
    pub align: Alignment,
}

/// What is seen of a line: its spans, each with its style, and where it stands.
#[verifier::ext_equal]
pub struct LineView {
    pub spans: Seq<(Seq<char>, Style)>,
    pub align: Alignment,
}

impl View for StyledLine {
    type V = LineView;

    open spec fn view(&self) -> LineView {
        LineView {
            spans: self.spans@.map_values(|s: StyledSpan| (s.text@, s.style)),
            align: self.align,
        }
    }
}

/// A line of spans at the left.
pub open spec fn line_of(spans: Seq<(Seq<char>, Style)>) -> LineView {
    LineView { spans, align: Alignment::Left }
}

impl StyledLine {
    /// An empty line.
    pub fn new() -> (l: StyledLine)
        ensures
            l@ == line_of(Seq::empty()),
    {
        let l = StyledLine { spans: Vec::new(), align: Alignment::Left };
        assert(l@ == line_of(Seq::empty()));
        l
    }

    /// Adds a span at the end.
    pub fn push(&mut self, text: &str, style: Style)
        ensures
            final(self)@ == (LineView {
                spans: old(self)@.spans.push((text@, style)),
                align: old(self)@.align,
            }),
    {
        self.spans.push(StyledSpan { text: text.to_owned(), style });
        assert(self@.spans == old(self)@.spans.push((text@, style)));
    }

    /// A line of one span.
    pub fn one(text: &str, style: Style) -> (l: StyledLine)
        ensures
            l@ == line_of(seq![(text@, style)]),
    {
        let mut l = StyledLine::new();
        l.push(text, style);
        assert(l@.spans == seq![(text@, style)]);
        l
    }

    /// Moves the line to another side of its area.
    pub fn aligned(self, align: Alignment) -> (l: StyledLine)
        ensures
            l@ == (LineView { spans: self@.spans, align }),
    {
        StyledLine { spans: self.spans, align }
    }
}

/// What is seen of lines.
pub open spec fn styled_views(v: Seq<StyledLine>) -> Seq<LineView> {
    v.map_values(|l: StyledLine| l@)
}

// ------------------------------------------------------------ panels

/// A border with round corners, with titles on it.
#[derive(Debug)]
pub struct Panel {
    pub title: StyledLine,
    /// A second title at the right of the upper border.
    pub top: Option<StyledLine>,
    /// A title at the right of the lower border.
    pub bottom: Option<StyledLine>,
    pub border: Color,
}

/// What is seen of a panel.
#[verifier::ext_equal]
pub struct PanelView {
    pub title: LineView,
    pub top: Option<LineView>,
    pub bottom: Option<LineView>,
    pub border: Color,
}

/// What is seen of an optional line.
pub open spec fn opt_line(l: Option<StyledLine>) -> Option<LineView> {
    match l {
        Some(s) => Some(s@),
        None => None,
    }
}

impl View for Panel {
    type V = PanelView;

    open spec fn view(&self) -> PanelView {
        PanelView {
            title: self.title@,
            top: opt_line(self.top),
            bottom: opt_line(self.bottom),
            border: self.border,
        }
    }
}

/// A panel with a title and a border in a colour.
pub open spec fn panel_in(title: LineView, border: Color) -> PanelView {
    PanelView { title, top: None, bottom: None, border }
}

/// Gives a panel without the focus.
pub fn panel(title: StyledLine) -> (p: Panel)
    ensures
        p@ == panel_in(title@, BORDER),
{
    Panel { title, top: None, bottom: None, border: BORDER }
}

/// Gives a panel with the focus.
pub fn panel_focused(title: StyledLine) -> (p: Panel)
    ensures
        p@ == panel_in(title@, BORDER_FOCUS),
{
    Panel { title, top: None, bottom: None, border: BORDER_FOCUS }
}

/// Gives the panel of a popup.
pub fn popup(title: StyledLine) -> (p: Panel)
    ensures
        p@ == panel_in(title@, BORDER_POPUP),
{
    Panel { title, top: None, bottom: None, border: BORDER_POPUP }
}

/// Gives an ordinary title.
pub fn t(title: &str) -> (l: StyledLine)
    ensures
        l@ == line_of(seq![(title@, title_look())]),
{
    StyledLine::one(title, title_style())
}

/// An ordinary title with an icon before it, in the same colour.
pub open spec fn icon_title(icon: Seq<char>, title: Seq<char>) -> LineView {
    line_of(seq![(" "@ + icon + " "@ + title + " "@, title_look())])
}

/// Gives an ordinary title with an icon before it.
pub fn t_icon(icon: &str, title: &str) -> (l: StyledLine)
    ensures
        l@ == icon_title(icon@, title@),
{
    let mut text = " ".to_owned();
    text.append(icon);
    text.append(" ");
    text.append(title);
    text.append(" ");
    t(text.as_str())
}

} // verus!
