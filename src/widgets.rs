//! Settings of the widgets drawn on the terminal.
use vstd::prelude::*;
use crate::colors::Color;

verus! {

/// Where a box stands, how large it is and how it is drawn.
#[derive(Debug, Clone, Copy)]
pub struct BoxConfig {
    pub x: u16,
    pub y: u16,
    pub width: u16,
    pub height: u16,
    pub border_style: LineStyle,
    pub color: Color,
    pub background: Color,
}

/// The line a box border is drawn with.
#[derive(Debug, Clone, Copy)]
pub enum LineStyle {
    Single,
    Double,
    Rounded,
    Dashed,
    Dotted,
    Thick,
    Custom {
        top_left: char,
        horizontal: char,
        top_right: char,
        vertical: char,
        bottom_right: char,
        bottom_left: char,
    },
}

/// The border characters of a style: top left, horizontal, top right,
/// vertical, then the two bottom corners. The named styles give bottom left
/// fifth and bottom right sixth; `Custom` gives its `bottom_right` fifth and its
/// `bottom_left` sixth, so a box drawn with it shows those two swapped.
pub open spec fn border_chars(s: LineStyle) -> (char, char, char, char, char, char) {
    match s {
        LineStyle::Single => ('┌', '─', '┐', '│', '└', '┘'),
        LineStyle::Double => ('╔', '═', '╗', '║', '╚', '╝'),
        LineStyle::Rounded => ('╭', '─', '╮', '│', '╰', '╯'),
        LineStyle::Dashed => ('┌', '╌', '┐', '╎', '└', '┘'),
        LineStyle::Dotted => ('┌', '┄', '┐', '┆', '└', '┘'),
        LineStyle::Thick => ('▛', '▀', '▜', '▐', '▙', '▟'),
        LineStyle::Custom { top_left, horizontal, top_right, vertical, bottom_right, bottom_left } =>
            (top_left, horizontal, top_right, vertical, bottom_right, bottom_left),
    }
}

impl LineStyle {
    /// The border characters of this style, in the order of `border_chars`.
    pub fn chars(&self) -> (r: (char, char, char, char, char, char))
        ensures
            r == border_chars(*self),
    {
        match self {
            LineStyle::Single => ('┌', '─', '┐', '│', '└', '┘'),
            LineStyle::Double => ('╔', '═', '╗', '║', '╚', '╝'),
            LineStyle::Rounded => ('╭', '─', '╮', '│', '╰', '╯'),
            LineStyle::Dashed => ('┌', '╌', '┐', '╎', '└', '┘'),
            LineStyle::Dotted => ('┌', '┄', '┐', '┆', '└', '┘'),
            LineStyle::Thick => ('▛', '▀', '▜', '▐', '▙', '▟'),
            LineStyle::Custom { top_left, horizontal, top_right, vertical, bottom_right, bottom_left } =>
                (*top_left, *horizontal, *top_right, *vertical, *bottom_right, *bottom_left),
        }
    }
}

} // verus!
