//! The display options of an editor: columns, sidebar, zero highlighting,
//! colours, text styles and the selected region. They are the state that a
//! host may persist between sessions.
use vstd::prelude::*;
use crate::layout::{MAX_COLUMNS, MIN_COLUMNS};

verus! {

/// A colour as red, green, blue and alpha components.
#[derive(Clone, Copy, Debug, PartialEq, Eq, Structural)]
pub struct Colour {
    pub r: u8,
    pub g: u8,
    pub b: u8,
    pub a: u8,
}

/// The text styles that the labels of the grid may take.
#[derive(Clone, Copy, Debug, PartialEq, Eq, Structural)]
pub enum TextStyle {
    Small,
    Body,
    Button,
    Heading,
    Monospace,
}

/// The columns that a row holds by default.
pub const DEFAULT_COLUMNS: usize = 16;

/// The options of a memory editor.
#[derive(Debug)]
pub struct MemoryEditorOptions {
    /// Whether the editor's window is open.
    pub is_open: bool,
    /// Whether each row ends with the bytes as ASCII characters.
    pub show_ascii_sidebar: bool,
    /// Whether zero bytes are drawn in `zero_colour`.
    pub show_zero_colour: bool,
    pub zero_colour: Colour,
    /// Bytes per row, from 1 to 64.
    pub column_count: usize,
    pub address_text_colour: Colour,
    /// The name of the address range on display.
    pub selected_address_range: String,
    /// Whether the region picker is drawn: there is more than one region.
    pub combo_box_enabled: bool,
    pub memory_editor_text_style: TextStyle,
    pub memory_editor_address_text_style: TextStyle,
    pub memory_editor_ascii_text_style: TextStyle,
}

pub open spec fn grey(level: u8) -> Colour {
    Colour { r: level, g: level, b: level, a: 255 }
}

/// The options of a new editor.
pub open spec fn default_options_spec(o: MemoryEditorOptions) -> bool {
    &&& o.is_open
    &&& o.show_ascii_sidebar
    &&& o.show_zero_colour
    &&& o.zero_colour == grey(80)
    &&& o.column_count == DEFAULT_COLUMNS
    &&& o.address_text_colour == (Colour { r: 125, g: 0, b: 125, a: 255 })
    &&& o.selected_address_range@ == Seq::<char>::empty()
    &&& !o.combo_box_enabled
    &&& o.memory_editor_text_style == TextStyle::Monospace
    &&& o.memory_editor_address_text_style == TextStyle::Monospace
    &&& o.memory_editor_ascii_text_style == TextStyle::Monospace
}

impl Default for MemoryEditorOptions {
    fn default() -> (r: Self)
        ensures
            default_options_spec(r),
    {
        MemoryEditorOptions {
            is_open: true,
            show_ascii_sidebar: true,
            show_zero_colour: true,
            zero_colour: Colour { r: 80, g: 80, b: 80, a: 255 },
            column_count: DEFAULT_COLUMNS,
            address_text_colour: Colour { r: 125, g: 0, b: 125, a: 255 },
            selected_address_range: String::new(),
            combo_box_enabled: false,
            memory_editor_text_style: TextStyle::Monospace,
            memory_editor_address_text_style: TextStyle::Monospace,
            memory_editor_ascii_text_style: TextStyle::Monospace,
        }
    }
}

pub open spec fn spec_clamp_columns(n: int) -> int {
    if n < MIN_COLUMNS {
        MIN_COLUMNS as int
    } else if n > MAX_COLUMNS {
        MAX_COLUMNS as int
    } else {
        n
    }
}

/// `n` brought into the column range `[1, 64]`.
pub fn clamp_column_count(n: usize) -> (r: usize)
    ensures
        r == spec_clamp_columns(n as int),
        MIN_COLUMNS <= r <= MAX_COLUMNS,
{
    if n < MIN_COLUMNS {
        MIN_COLUMNS
    } else if n > MAX_COLUMNS {
        MAX_COLUMNS
    } else {
        n
    }
}

/// The colour that a byte cell is drawn in: the zero colour for a zero byte
/// when zero highlighting is on, else the theme's text colour (`None`).
pub open spec fn spec_cell_colour(show_zero_colour: bool, zero_colour: Colour, value: u8) -> Option<
    Colour,
> {
    if show_zero_colour && value == 0 {
        Some(zero_colour)
    } else {
        None
    }
}

impl MemoryEditorOptions {
    /// The colour of a byte cell holding `value`.
    pub fn cell_colour(&self, value: u8) -> (r: Option<Colour>)
        ensures
            r == spec_cell_colour(self.show_zero_colour, self.zero_colour, value),
    {
        if self.show_zero_colour && value == 0 {
            Some(self.zero_colour)
        } else {
            None
        }
    }
}

} // verus!
