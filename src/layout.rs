use vstd::prelude::*;

verus! {

/// A column width for a table: exactly so many cells, or at least so many.
#[derive(Clone, Copy, Debug, PartialEq, Eq, Structural)]
pub enum ColumnWidth {
    Length(u16),
    Min(u16),
}

/// A rectangle of terminal cells.
#[derive(Clone, Copy, Debug, PartialEq, Eq, Structural)]
pub struct Rect {
    pub x: u16,
    pub y: u16,
    pub width: u16,
    pub height: u16,
}

/// Width of the help menu, in cells.
pub const HELP_WIDTH: u16 = 48;

/// Height of the help menu, in cells.
pub const HELP_HEIGHT: u16 = 29;

/// The widths of the disk table's columns (partition, mount point, used, free, read and
/// write rates) in a widget `width` cells wide: as many columns as fit, from the left, the
/// first two sharing what the others leave.
pub open spec fn disk_columns(width: int) -> Seq<ColumnWidth> {
    let w = width - 2;
    if w >= 44 {
        seq![
            ColumnWidth::Length(((w - 34) / 2) as u16),
            ColumnWidth::Length(((w - 34) / 2) as u16),
            ColumnWidth::Length(5),
            ColumnWidth::Length(8),
            ColumnWidth::Length(8),
            ColumnWidth::Length(8),
        ]
    } else if w >= 35 {
        seq![
            ColumnWidth::Length(((w - 25) / 2) as u16),
            ColumnWidth::Length(((w - 25) / 2) as u16),
            ColumnWidth::Length(5),
            ColumnWidth::Length(8),
            ColumnWidth::Length(8),
        ]
    } else if w >= 26 {
        seq![
            ColumnWidth::Length(((w - 16) / 2) as u16),
            ColumnWidth::Length(((w - 16) / 2) as u16),
            ColumnWidth::Length(5),
            ColumnWidth::Length(8),
        ]
    } else if w >= 17 {
        seq![
            ColumnWidth::Length(((w - 7) / 2) as u16),
            ColumnWidth::Length(((w - 7) / 2) as u16),
            ColumnWidth::Length(5),
        ]
    } else if w >= 11 {
        seq![ColumnWidth::Min(5), ColumnWidth::Min(5)]
    } else {
        seq![]
    }
}

/// The widths of the disk table's columns for a widget `width` cells wide, borders included.
pub fn custom_column_sizing(width: u16) -> (r: Vec<ColumnWidth>)
    requires
        width >= 2,
    ensures
        r@ == disk_columns(width as int),
{
    let w = width - 2;
    let r = if w >= 39 + 5 {
        vec![
            ColumnWidth::Length((w - 34) / 2),
            ColumnWidth::Length((w - 34) / 2),
            ColumnWidth::Length(5),
            ColumnWidth::Length(8),
            ColumnWidth::Length(8),
            ColumnWidth::Length(8),
        ]
    } else if w >= 31 + 4 {
        vec![
            ColumnWidth::Length((w - 25) / 2),
            ColumnWidth::Length((w - 25) / 2),
            ColumnWidth::Length(5),
            ColumnWidth::Length(8),
            ColumnWidth::Length(8),
        ]
    } else if w >= 23 + 3 {
        vec![
            ColumnWidth::Length((w - 16) / 2),
            ColumnWidth::Length((w - 16) / 2),
            ColumnWidth::Length(5),
            ColumnWidth::Length(8),
        ]
    } else if w >= 15 + 2 {
        vec![
            ColumnWidth::Length((w - 7) / 2),
            ColumnWidth::Length((w - 7) / 2),
            ColumnWidth::Length(5),
        ]
    } else if w >= 10 + 1 {
        vec![ColumnWidth::Min(5), ColumnWidth::Min(5)]
    } else {
        vec![]
    };
    assert(r@ =~= disk_columns(width as int));
    r
}

/// The help menu's placement.
pub struct HelpMenu {}

impl HelpMenu {
    pub fn new() -> (r: HelpMenu) {
        HelpMenu {}
    }

    /// Where the help menu goes in `area`: centred, at its fixed size.
    pub fn get_rect(&self, area: Rect) -> (r: Rect)
        requires
            area.width >= HELP_WIDTH,
            area.height >= HELP_HEIGHT,
        ensures
            r.x == (area.width - HELP_WIDTH) / 2,
            r.y == (area.height - HELP_HEIGHT) / 2,
            r.width == HELP_WIDTH,
            r.height == HELP_HEIGHT,
    {
        Rect {
            x: (area.width - HELP_WIDTH) / 2,
            y: (area.height - HELP_HEIGHT) / 2,
            width: HELP_WIDTH,
            height: HELP_HEIGHT,
        }
    }
}

} // verus!
