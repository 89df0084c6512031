//! An embeddable hex viewer and editor for byte-addressable memory.
//!
//! The library holds the editor's model: the named address ranges, the
//! display options, the row geometry of a region, the rows that a scroll
//! viewport shows, the text of each label and cell, and the width carried from
//! one frame to the next. Drawing is left to the host's toolkit.
pub mod layout;
pub mod viewport;
pub mod text;
pub mod registry;
pub mod options;
pub mod editor;
