//! Where things stand on the screen.
use ratatui::layout::{Constraint, Direction, Flex, Layout, Rect};
use vstd::prelude::*;

verus! {

/// A rectangle of the screen, in cells.
#[derive(Debug, Clone, Copy, PartialEq, Eq, Structural)]
pub struct Area {
    pub x: u16,
    pub y: u16,
    pub width: u16,
    pub height: u16,
}

/// Whether every cell of an area has coordinates.
pub open spec fn fits(a: Area) -> bool {
    a.x + a.width <= u16::MAX && a.y + a.height <= u16::MAX
}

/// Whether an area lies in another.
pub open spec fn lies_in(a: Area, b: Area) -> bool {
    &&& b.x <= a.x
    &&& b.y <= a.y
    &&& a.x + a.width <= b.x + b.width
    &&& a.y + a.height <= b.y + b.height
}

/// Which way an area is divided.
#[derive(Debug, Clone, Copy, PartialEq, Eq, Structural)]
pub enum Axis {
    Across,
    Down,
}

/// The middle of an area, `size` cells wide or high. The cell that cannot be shared out stays
/// before it.
pub open spec fn middle(area: Area, axis: Axis, size: u16) -> Area {
    match axis {
        Axis::Across => Area {
            x: (area.x + (area.width - size + 1) / 2) as u16,
            width: size,
            ..area
        },
        Axis::Down => Area {
            y: (area.y + (area.height - size + 1) / 2) as u16,
            height: size,
            ..area
        },
    }
}

/// Whether an area has room for `size` cells.
pub open spec fn has_room(area: Area, axis: Axis, size: u16) -> bool {
    match axis {
        Axis::Across => size <= area.width,
        Axis::Down => size <= area.height,
    }
}

/// The area that `ratatui`'s `Layout::areas` gives to one constraint of a fixed length under
/// `Flex::Center`. The extent along the other axis is that of the divided area. Where there is
/// room for the length, the area has it, with equal space on both sides, rounded half up. Of a
/// length without room, and of cells without coordinates, nothing more is said.
#[verifier::external_body]
fn centered(area: Area, axis: Axis, size: u16) -> (r: Area)
    ensures
        axis == Axis::Across ==> r.y == area.y && r.height == area.height,
        axis == Axis::Down ==> r.x == area.x && r.width == area.width,
        fits(area) && has_room(area, axis, size) ==> r == middle(area, axis, size),
{
    let direction = match axis {
        Axis::Across => Direction::Horizontal,
        Axis::Down => Direction::Vertical,
    };
    let whole = Rect { x: area.x, y: area.y, width: area.width, height: area.height };
    let [r] = Layout::new(direction, [Constraint::Length(size)])
        .flex(Flex::Center)
        .areas(whole);
    Area { x: r.x, y: r.y, width: r.width, height: r.height }
}

/// The three areas that `ratatui`'s `Layout::split` gives to `top` lines, the rest and `bottom`
/// lines, one below the other. Each has the columns of the whole. Where the whole has room for
/// both, the first and the last area have their lines and the rest lies between them. Of a
/// smaller whole, nothing more is said: which area its lines go to is left open.
#[verifier::external_body]
fn stacked(area: Area, top: u16, bottom: u16) -> (r: (Area, Area, Area))
    ensures
        r.0.x == area.x && r.1.x == area.x && r.2.x == area.x,
        r.0.width == area.width && r.1.width == area.width && r.2.width == area.width,
        fits(area) && top + bottom <= area.height ==> {
            &&& r.0 == Area { height: top, ..area }
            &&& r.1 == Area {
                y: (area.y + top) as u16,
                height: (area.height - top - bottom) as u16,
                ..area
            }
            &&& r.2 == Area {
                y: (area.y + area.height - bottom) as u16,
                height: bottom,
                ..area
            }
        },
{
    let sizes = [Constraint::Length(top), Constraint::Min(0), Constraint::Length(bottom)];
    let whole = Rect { x: area.x, y: area.y, width: area.width, height: area.height };
    let rects = Layout::vertical(sizes).split(whole);
    let at = |i: usize| Area {
        x: rects[i].x,
        y: rects[i].y,
        width: rects[i].width,
        height: rects[i].height,
    };
    (at(0), at(1), at(2))
}

/// The parts of the screen.
#[derive(Debug, Clone, Copy, PartialEq, Eq)]
pub struct Regions {
    pub header: Area,
    pub table: Area,
    pub footer: Area,
}

/// The parts of a screen of two lines or more: a line, the rest, and another line.
pub open spec fn divided(screen: Area) -> Regions {
    Regions {
        header: Area { height: 1, ..screen },
        table: Area { y: (screen.y + 1) as u16, height: (screen.height - 2) as u16, ..screen },
        footer: Area { y: (screen.y + screen.height - 1) as u16, height: 1, ..screen },
    }
}

/// Divides the screen into its header line, its table and its footer line.
pub fn regions(screen: Area) -> (r: Regions)
    ensures
        r.header.x == screen.x && r.header.width == screen.width,
        r.table.x == screen.x && r.table.width == screen.width,
        r.footer.x == screen.x && r.footer.width == screen.width,
        fits(screen) && screen.height >= 2 ==> r == divided(screen),
{
    let (header, table, footer): (Area, Area, Area) = stacked(screen, 1, 1);
    Regions { header, table, footer }
}

/// The smaller of two sizes.
pub open spec fn at_most(a: u16, b: u16) -> u16 {
    if a <= b {
        a
    } else {
        b
    }
}

/// An area of the given size in the middle of another, or as much of it as there is room for.
pub open spec fn in_the_middle(area: Area, width: u16, height: u16) -> Area {
    middle(
        middle(area, Axis::Across, at_most(width, area.width)),
        Axis::Down,
        at_most(height, area.height),
    )
}

/// An area of the given size in the middle of another.
pub fn centered_rect(area: Area, width: u16, height: u16) -> (r: Area)
    ensures
        fits(area) ==> r == in_the_middle(area, width, height),
{
    let w: u16 = if width <= area.width {
        width
    } else {
        area.width
    };
    let h: u16 = if height <= area.height {
        height
    } else {
        area.height
    };
    let column: Area = centered(area, Axis::Across, w);
    proof {
        if fits(area) {
            a_centered_area_lies_inside(area, width, height);
        }
    }
    centered(column, Axis::Down, h)
}

/// A centered area lies in the one it is centered in, has the size that was asked for where there
/// is room for it, and as much space before it as behind it but for one cell.
pub proof fn a_centered_area_lies_inside(area: Area, width: u16, height: u16)
    requires
        fits(area),
    ensures
        ({
            let r = in_the_middle(area, width, height);
            &&& lies_in(r, area)
            &&& r.width == at_most(width, area.width)
            &&& r.height == at_most(height, area.height)
            &&& 0 <= (r.x - area.x) - (area.x + area.width - (r.x + r.width)) <= 1
            &&& 0 <= (r.y - area.y) - (area.y + area.height - (r.y + r.height)) <= 1
        }),
{
}

/// The header, the table and the footer of a screen of two lines or more cover it, each line
/// once.
pub proof fn regions_cover_the_screen(screen: Area)
    requires
        fits(screen),
        screen.height >= 2,
    ensures
        ({
            let r = divided(screen);
            &&& r.header.y == screen.y
            &&& r.header.height == 1 && r.footer.height == 1
            &&& r.header.x == screen.x && r.table.x == screen.x && r.footer.x == screen.x
            &&& r.header.width == screen.width && r.table.width == screen.width
            &&& r.footer.width == screen.width
            &&& r.table.y == r.header.y + r.header.height
            &&& r.footer.y == r.table.y + r.table.height
            &&& r.footer.y + r.footer.height == screen.y + screen.height
            &&& lies_in(r.header, screen) && lies_in(r.table, screen) && lies_in(r.footer, screen)
        }),
{
}

} // verus!
