//! Compiles nested, comma-separated argument lists of plain values,
//! color-tagged values, parenthesized groups and braced blocks into text: one
//! colored line, or a tree drawn with connector glyphs. Also gathers the escape
//! sequences that move the cursor and draw boxes on a terminal.

pub mod args;
pub mod colorizing;
pub mod colors;
pub mod errors;
pub mod interface;
pub mod text;
pub mod widgets;
pub mod xformat;

pub use args::{MacroArg, MacroArgs, SyntaxError};
pub use colorizing::{ColoredText, TextStyle};
pub use colors::Color;
pub use errors::Error;
pub use interface::Interface;
pub use widgets::{BoxConfig, LineStyle};
pub use xformat::{xformat_args, xformat_block, TreeGlyphs, TreeStyle, XformatError};
