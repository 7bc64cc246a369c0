//! The colours of the editor, as `0xRRGGBB`.

use vstd::prelude::*;

verus! {

/// A colour: eight bits each of red, green and blue.
pub type Color = u32;

/// The title of a section (`#`).
pub const COLOR_SECTION: u32 = 0xe5_ccff;

/// The marks `->`, `=>`, `<=` and `~~`.
pub const COLOR_FLOW: u32 = 0xff_994c;

/// A command (`@`).
pub const COLOR_COMMAND: u32 = 0x4c_cc4c;

/// The entrance or exit of a character (`+` or `-`).
pub const COLOR_DIRECTION: u32 = 0x4c_b2ff;

/// A variable (`$`).
pub const COLOR_VARIABLE: u32 = 0xff_cc4c;

/// A choice (`?` or `|`).
pub const COLOR_CHOICE: u32 = 0xcc_4ccc;

/// A comment (`//`).
pub const COLOR_COMMENT: u32 = 0x66_6666;

/// A quoted text.
pub const COLOR_STRING: u32 = 0xe5_e566;

/// Any other text.
pub const COLOR_DEFAULT: u32 = 0xff_ffff;

/// What lies behind a pair of marks.
pub const COLOR_PAIR_HIGHLIGHT: u32 = 0xff_dc00;

} // verus!
