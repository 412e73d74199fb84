//! Areas of the screen, and how they are divided.

use ratatui::layout::{Constraint, Direction, Layout};
use vstd::prelude::*;

verus! {

/// Gives the sum of a coordinate and a length, kept within the range of coordinates.
pub fn add_to(a: u16, b: usize) -> (r: u16)
    ensures
        r == add_coord(a, b as int),
{
    if b > 0xffff {
        return u16::MAX;
    }
    a.saturating_add(b as u16)
}

/// A rectangle of cells.
#[derive(Clone, Copy, PartialEq, Eq, Debug, Structural)]
pub struct Rect {
    pub x: u16,
    pub y: u16,
    pub width: u16,
    pub height: u16,
}

/// How much of an area a part of it takes.
#[derive(Clone, Copy, PartialEq, Eq, Debug, Structural)]
pub enum Size {
    Length(u16),
    Min(u16),
    Percentage(u16),
}

/// The sum of two coordinates, kept within the range of coordinates.
pub open spec fn add_coord(a: u16, b: int) -> u16 {
    if a + b > u16::MAX {
        u16::MAX
    } else {
        (a + b) as u16
    }
}

/// `a` without `b`, and not below zero.
pub open spec fn less(a: u16, b: u16) -> u16 {
    if a < b {
        0
    } else {
        (a - b) as u16
    }
}

/// The smaller coordinate.
pub open spec fn min_coord(a: u16, b: u16) -> u16 {
    if a <= b {
        a
    } else {
        b
    }
}

/// The larger coordinate.
pub open spec fn max_coord(a: u16, b: u16) -> u16 {
    if a <= b {
        b
    } else {
        a
    }
}

/// Gives the smaller coordinate.
pub fn min_of(a: u16, b: u16) -> (r: u16)
    ensures
        r == min_coord(a, b),
{
    if a <= b {
        a
    } else {
        b
    }
}

/// Gives the larger coordinate.
pub fn max_of(a: u16, b: u16) -> (r: u16)
    ensures
        r == max_coord(a, b),
{
    if a <= b {
        b
    } else {
        a
    }
}

impl Rect {
    /// The area inside a border of one cell on each side.
    pub open spec fn inside(self) -> Rect {
        Rect {
            x: min_coord(add_coord(self.x, 1), add_coord(self.x, self.width as int)),
            y: min_coord(add_coord(self.y, 1), add_coord(self.y, self.height as int)),
            width: less(self.width, 2),
            height: less(self.height, 2),
        }
    }

    /// Whether the area ends within the range of coordinates.
    pub open spec fn on_screen(self) -> bool {
        self.x + self.width <= u16::MAX && self.y + self.height <= u16::MAX
    }

    /// Whether the area lies in another.
    pub open spec fn within(self, other: Rect) -> bool {
        &&& other.x <= self.x
        &&& other.y <= self.y
        &&& self.x + self.width <= other.x + other.width
        &&& self.y + self.height <= other.y + other.height
    }

    /// Gives the area inside a border of one cell on each side.
    pub fn inner(self) -> (r: Rect)
        ensures
            r == self.inside(),
    {
        Rect {
            x: min_of(self.x.saturating_add(1), self.x.saturating_add(self.width)),
            y: min_of(self.y.saturating_add(1), self.y.saturating_add(self.height)),
            width: self.width.saturating_sub(2),
            height: self.height.saturating_sub(2),
        }
    }
}

/// Whether `parts` divide `area` from top to bottom: each is as wide as the area, and starts and
/// ends inside it.
pub open spec fn stacked(area: Rect, parts: Seq<Rect>) -> bool {
    forall|i: int|
        0 <= i < parts.len() ==> (#[trigger] parts[i]).x == area.x && parts[i].width == area.width
            && area.y <= parts[i].y && parts[i].y + parts[i].height <= add_coord(
            area.y,
            area.height as int,
        )
}

/// Whether `parts` divide `area` from left to right: each is as high as the area, and starts and
/// ends inside it.
pub open spec fn abreast(area: Rect, parts: Seq<Rect>) -> bool {
    forall|i: int|
        0 <= i < parts.len() ==> (#[trigger] parts[i]).y == area.y && parts[i].height
            == area.height && area.x <= parts[i].x && parts[i].x + parts[i].width <= add_coord(
            area.x,
            area.width as int,
        )
}

/// The cells that the lengths among the first `n` sizes ask for.
pub open spec fn lengths(sizes: Seq<Size>, n: int) -> int
    decreases n,
{
    if n <= 0 {
        0
    } else {
        lengths(sizes, n - 1) + match sizes[n - 1] {
            Size::Length(k) => k as int,
            _ => 0,
        }
    }
}

/// Whether `sizes` are lengths and one minimum, which fit together into `extent` cells.
pub open spec fn fitting(sizes: Seq<Size>, extent: int) -> bool {
    exists|k: int|
        {
            &&& 0 <= k < sizes.len()
            &&& #[trigger] sizes[k] matches Size::Min(least)
            &&& least <= i16::MAX
            &&& lengths(sizes, sizes.len() as int) + least <= extent
            &&& forall|i: int| 0 <= i < sizes.len() && i != k ==> #[trigger] sizes[i] is Length
        }
}

/// The cells that the size at `i` is given where all fit: a length as many as it asks for, and the
/// minimum what is left.
pub open spec fn size_in(sizes: Seq<Size>, extent: int, i: int) -> int {
    match sizes[i] {
        Size::Length(k) => k as int,
        _ => extent - lengths(sizes, sizes.len() as int),
    }
}

/// Where the part at `i` starts in an area whose parts follow one another.
pub open spec fn start_in(sizes: Seq<Size>, extent: int, i: int) -> int
    decreases i,
{
    if i <= 0 {
        0
    } else {
        start_in(sizes, extent, i - 1) + size_in(sizes, extent, i - 1)
    }
}

/// Whether the parts of `area` have the heights that `sizes` ask for, one below the other.
pub open spec fn rows_as_asked(sizes: Seq<Size>, area: Rect, parts: Seq<Rect>) -> bool {
    forall|i: int|
        0 <= i < parts.len() ==> (#[trigger] parts[i]).height == size_in(
            sizes,
            area.height as int,
            i,
        ) && parts[i].y == area.y + start_in(sizes, area.height as int, i)
}

/// Whether the parts of `area` have the widths that `sizes` ask for, one beside the other.
pub open spec fn columns_as_asked(sizes: Seq<Size>, area: Rect, parts: Seq<Rect>) -> bool {
    forall|i: int|
        0 <= i < parts.len() ==> (#[trigger] parts[i]).width == size_in(
            sizes,
            area.width as int,
            i,
        ) && parts[i].x == area.x + start_in(sizes, area.width as int, i)
}

/// Whether `Layout::split` may divide an area into `parts` for `sizes`, from top to bottom or from
/// left to right. Where not all sizes fit, more than one division is possible.
pub uninterp spec fn may_divide(vertical: bool, sizes: Seq<Size>, area: Rect, parts: Seq<Rect>) -> bool;

/// `Layout::split` divides an area into one part for each size, by a constraint solver. Each
/// part reaches across the area in the other direction, and starts and ends inside the area. Where
/// lengths and one minimum fit together, the constraints on them outweigh all others: each length
/// is kept, the minimum takes the rest, and the parts follow one another. Which sizes the parts get
/// where not all fit, and how percentages are rounded, is up to the solver, and is not said here.
#[verifier::external_body]
pub(crate) fn split(vertical: bool, sizes: &Vec<Size>, area: Rect) -> (parts: Vec<Rect>)
    ensures
        may_divide(vertical, sizes@, area, parts@),
        parts@.len() == sizes@.len(),
        vertical ==> stacked(area, parts@),
        !vertical ==> abreast(area, parts@),
        vertical && area.on_screen() && fitting(sizes@, area.height as int) ==> rows_as_asked(
            sizes@,
            area,
            parts@,
        ),
        !vertical && area.on_screen() && fitting(sizes@, area.width as int) ==> columns_as_asked(
            sizes@,
            area,
            parts@,
        ),
{
    let whole = ratatui::layout::Rect { x: area.x, y: area.y, width: area.width, height: area.height };
    let wanted = sizes.iter().map(
        |s| match s {
            Size::Length(n) => Constraint::Length(*n),
            Size::Min(n) => Constraint::Min(*n),
            Size::Percentage(n) => Constraint::Percentage(*n),
        },
    );
    let direction = if vertical { Direction::Vertical } else { Direction::Horizontal };
    let parts = Layout::default().direction(direction).constraints(wanted).split(whole);
    parts.iter().map(|r| Rect { x: r.x, y: r.y, width: r.width, height: r.height }).collect()
}

} // verus!
