//! The memory editor: its registry of regions, its options, the accessors
//! bound to the inspected object, and the width carried between frames.
//!
//! The editor decides; the host draws. Per frame the host asks which rows the
//! viewport shows, which addresses they read, the text and colour of each
//! label and cell, and where a confirmed edit is written.
use vstd::prelude::*;
use std::ops::Range;
use crate::layout::{
    ceil_div,
    row_addresses,
    rows_addresses,
    row_count,
    row_cell_addresses,
    rows_cell_addresses,
    lemma_rows_addresses_in_region,
    MIN_COLUMNS,
    MAX_COLUMNS,
};
use crate::options::{
    clamp_column_count,
    default_options_spec,
    spec_cell_colour,
    spec_clamp_columns,
    Colour,
    MemoryEditorOptions,
};
use crate::registry::{has_name, lookup, position_of, with_range, AddressRange, AddressRegistry};
use crate::text::{address_digit_count, address_label, hex_len, hex_pad, lemma_label_width_stable};
use crate::viewport::{spec_first_row, spec_last_row, visible_rows, RowWindow};

verus! {

/// The one value carried from one frame to the next: the width that the
/// editor's contents took in the previous frame.
#[derive(Clone, Copy, Debug, PartialEq, Eq, Structural)]
pub struct BetweenFrameUiData {
    pub previous_frame_editor_width: u32,
}

pub open spec fn spec_max_width(previous: u32, natural: u32) -> u32 {
    if natural < previous {
        previous
    } else {
        natural
    }
}

impl BetweenFrameUiData {
    pub fn new() -> (r: Self)
        ensures
            r.previous_frame_editor_width == 0,
    {
        BetweenFrameUiData { previous_frame_editor_width: 0 }
    }

    /// The largest width that the container may take this frame: its
    /// natural width, or the previous frame's width if that was wider.
    pub fn max_width(&self, natural_width: u32) -> (r: u32)
        ensures
            r == spec_max_width(self.previous_frame_editor_width, natural_width),
    {
        if natural_width < self.previous_frame_editor_width {
            self.previous_frame_editor_width
        } else {
            natural_width
        }
    }

    /// Records the width that this frame's contents took.
    pub fn record_width(&mut self, width: u32)
        ensures
            final(self).previous_frame_editor_width == width,
    {
        self.previous_frame_editor_width = width;
    }
}

/// Why a frame cannot be drawn: the editor was set up wrongly.
#[derive(Clone, Copy, Debug, PartialEq, Eq, Structural)]
pub enum RenderContractError {
    /// No address range has been added.
    NoAddressRange,
    /// Edits are allowed but no write accessor was given.
    MissingWriteFunction,
}

/// The geometry of the selected region.
#[derive(Clone, Copy, Debug, PartialEq, Eq, Structural)]
pub struct RegionLayout {
    pub start: usize,
    pub end: usize,
    pub column_count: usize,
    /// `ceil((end - start) / column_count)`.
    pub row_count: usize,
    /// The hexadecimal digits of every address label of the region.
    pub address_digits: usize,
}

/// A viewer and editor of the memory of an object, read through
/// `read_function` and written through `write_function`.
pub struct MemoryEditor<R, W> {
    window_name: String,
    read_function: R,
    write_function: Option<W>,
    address_ranges: AddressRegistry,
    read_only: bool,
    options: MemoryEditorOptions,
    frame_data: BetweenFrameUiData,
}

impl<R, W> MemoryEditor<R, W> {
    pub closed spec fn title(&self) -> Seq<char> {
        self.window_name@
    }

    pub closed spec fn reader(&self) -> R {
        self.read_function
    }

    pub closed spec fn writer(&self) -> Option<W> {
        self.write_function
    }

    pub closed spec fn ranges(&self) -> Seq<AddressRange> {
        self.address_ranges@
    }

    pub closed spec fn is_read_only_spec(&self) -> bool {
        self.read_only
    }

    pub closed spec fn opts(&self) -> MemoryEditorOptions {
        self.options
    }

    pub closed spec fn previous_width(&self) -> u32 {
        self.frame_data.previous_frame_editor_width
    }

    /// The name of the selected range.
    pub open spec fn selected(&self) -> Seq<char> {
        self.opts().selected_address_range@
    }

    /// The selected range.
    pub open spec fn selected_range_spec(&self) -> AddressRange {
        lookup(self.ranges(), self.selected())->Some_0
    }

    /// The registry is well formed, the selection names one of its ranges
    /// whenever there is one, the picker flag says whether there is more than
    /// one, and the column count lies in `[1, 64]`.
    pub closed spec fn wf(&self) -> bool {
        &&& self.address_ranges.wf()
        &&& (self.ranges().len() > 0 ==> has_name(self.ranges(), self.selected()))
        &&& self.options.combo_box_enabled == (self.ranges().len() > 1)
        &&& MIN_COLUMNS <= self.options.column_count <= MAX_COLUMNS
    }

    /// The facts that `wf` gives to callers.
    pub proof fn lemma_wf(&self)
        requires
            self.wf(),
        ensures
            crate::registry::ranges_wf(self.ranges()),
            self.ranges().len() > 0 ==> has_name(self.ranges(), self.selected()),
            self.opts().combo_box_enabled == (self.ranges().len() > 1),
            MIN_COLUMNS <= self.opts().column_count <= MAX_COLUMNS,
    {
    }

    /// A new editor that reads through `read_function`, with no address
    /// range, editable, with no write accessor and the default options.
    pub fn new(read_function: R) -> (r: Self)
        ensures
            r.wf(),
            r.title() == "Memory Editor"@,
            r.reader() == read_function,
            r.writer() is None,
            r.ranges().len() == 0,
            !r.is_read_only_spec(),
            default_options_spec(r.opts()),
            r.previous_width() == 0,
    {
        let options: MemoryEditorOptions = MemoryEditorOptions::default();
        MemoryEditor {
            window_name: "Memory Editor".to_owned(),
            read_function,
            write_function: None,
            address_ranges: AddressRegistry::new(),
            read_only: false,
            options,
            frame_data: BetweenFrameUiData::new(),
        }
    }

    /// Sets the title of the editor's window.
    pub fn with_window_title(self, title: String) -> (r: Self)
        ensures
            r.title() == title@,
            r.reader() == self.reader(),
            r.writer() == self.writer(),
            r.ranges() == self.ranges(),
            r.is_read_only_spec() == self.is_read_only_spec(),
            r.opts() == self.opts(),
            r.previous_width() == self.previous_width(),
            self.wf() ==> r.wf(),
    {
        let mut s = self;
        s.window_name = title;
        s
    }

    /// Sets the accessor through which edits are written.
    pub fn with_write_function(self, write_function: W) -> (r: Self)
        ensures
            r.writer() == Some(write_function),
            r.title() == self.title(),
            r.reader() == self.reader(),
            r.ranges() == self.ranges(),
            r.is_read_only_spec() == self.is_read_only_spec(),
            r.opts() == self.opts(),
            r.previous_width() == self.previous_width(),
            self.wf() ==> r.wf(),
    {
        let mut s = self;
        s.write_function = Some(write_function);
        s
    }

    /// Adds the range `address_range` under `range_name`, in place of a range
    /// of that name if there is one. The first range added is selected; the
    /// region picker is enabled once there is more than one range.
    pub fn with_address_range(self, range_name: String, address_range: Range<usize>) -> (r: Self)
        requires
            self.wf(),
            address_range.start <= address_range.end,
        ensures
            r.wf(),
            r.ranges() == with_range(
                self.ranges(),
                AddressRange { name: range_name, start: address_range.start, end: address_range.end },
            ),
            r.selected() == if self.ranges().len() == 0 {
                range_name@
            } else {
                self.selected()
            },
            r.opts().combo_box_enabled == (r.ranges().len() > 1),
            r.opts().column_count == self.opts().column_count,
            same_settings(r.opts(), self.opts()),
            r.title() == self.title(),
            r.reader() == self.reader(),
            r.writer() == self.writer(),
            r.is_read_only_spec() == self.is_read_only_spec(),
            r.previous_width() == self.previous_width(),
    {
        let mut s = self;
        let was_empty = s.address_ranges.len() == 0;
        if was_empty {
            s.options.selected_address_range = range_name.clone();
        }
        let ghost old_ranges = s.address_ranges@;
        let ghost selected = s.options.selected_address_range@;
        s.address_ranges.insert(
            AddressRange { name: range_name, start: address_range.start, end: address_range.end },
        );
        s.options.combo_box_enabled = s.address_ranges.len() > 1;
        proof {
            let new_ranges = s.address_ranges@;
            if old_ranges.len() > 0 {
                assert(has_name(old_ranges, selected));
                let p = position_of(old_ranges, selected);
                if has_name(old_ranges, range_name@) {
                    let q = position_of(old_ranges, range_name@);
                    assert(new_ranges[q].name@ == range_name@);
                    if p == q {
                        assert(new_ranges[p].name@ == selected);
                    } else {
                        assert(new_ranges[p] == old_ranges[p]);
                    }
                } else {
                    assert(new_ranges[p] == old_ranges[p]);
                }
                assert(new_ranges[p].name@ == selected);
            } else {
                assert(new_ranges[0].name@ == range_name@);
            }
        }
        s
    }

    /// Sets whether edits are refused.
    pub fn with_read_only(self, read_only: bool) -> (r: Self)
        ensures
            r.is_read_only_spec() == read_only,
            r.title() == self.title(),
            r.reader() == self.reader(),
            r.writer() == self.writer(),
            r.ranges() == self.ranges(),
            r.opts() == self.opts(),
            r.previous_width() == self.previous_width(),
            self.wf() ==> r.wf(),
    {
        let mut s = self;
        s.read_only = read_only;
        s
    }

    /// `self` and `other` differ at most in their options.
    pub open spec fn same_but_options(&self, other: &Self) -> bool {
        &&& self.title() == other.title()
        &&& self.reader() == other.reader()
        &&& self.writer() == other.writer()
        &&& self.ranges() == other.ranges()
        &&& self.is_read_only_spec() == other.is_read_only_spec()
        &&& self.previous_width() == other.previous_width()
    }

    /// Sets the options, as restored from a previous session. The column
    /// count is brought into `[1, 64]`, the picker flag follows the number of
    /// ranges, and a selection that names no range falls back to the first.
    pub fn with_options(self, options: MemoryEditorOptions) -> (r: Self)
        requires
            self.wf(),
        ensures
            r.wf(),
            r.same_but_options(&self),
            same_settings(r.opts(), options),
            r.opts().column_count == spec_clamp_columns(options.column_count as int),
            r.opts().combo_box_enabled == (self.ranges().len() > 1),
            r.selected() == if self.ranges().len() == 0 || has_name(
                self.ranges(),
                options.selected_address_range@,
            ) {
                options.selected_address_range@
            } else {
                self.ranges()[0].name@
            },
    {
        let mut s = self;
        let mut options = options;
        options.column_count = clamp_column_count(options.column_count);
        options.combo_box_enabled = s.address_ranges.len() > 1;
        if s.address_ranges.len() > 0 && s.address_ranges.find(&options.selected_address_range).is_none() {
            match s.address_ranges.first() {
                Some(first) => {
                    options.selected_address_range = first.name.clone();
                },
                None => {},
            }
            proof {
                assert(s.address_ranges@[0].name@ == options.selected_address_range@);
                assert(has_name(s.address_ranges@, options.selected_address_range@));
            }
        }
        s.options = options;
        s
    }

    /// The title of the editor's window.
    pub fn window_title(&self) -> (r: &String)
        ensures
            r@ == self.title(),
    {
        &self.window_name
    }

    /// The accessor through which bytes are read.
    pub fn read_function(&self) -> (r: &R)
        ensures
            *r == self.reader(),
    {
        &self.read_function
    }

    /// The accessor through which edits are written, if one was given.
    pub fn write_function(&self) -> (r: Option<&W>)
        ensures
            r is None <==> self.writer() is None,
            r matches Some(w) ==> self.writer() == Some(*w),
    {
        match &self.write_function {
            Some(w) => Some(w),
            None => None,
        }
    }

    /// Whether edits are refused.
    pub fn is_read_only(&self) -> (r: bool)
        ensures
            r == self.is_read_only_spec(),
    {
        self.read_only
    }

    /// The options.
    pub fn options(&self) -> (r: &MemoryEditorOptions)
        ensures
            *r == self.opts(),
    {
        &self.options
    }

    /// The registered address ranges.
    pub fn address_ranges(&self) -> (r: &AddressRegistry)
        ensures
            r@ == self.ranges(),
            r.wf() <== self.wf(),
    {
        &self.address_ranges
    }

    /// Whether a frame may be drawn: at least one range is registered, and a
    /// write accessor was given unless edits are refused.
    pub fn check_render_contract(&self) -> (r: Result<(), RenderContractError>)
        ensures
            r == if self.ranges().len() == 0 {
                Err(RenderContractError::NoAddressRange)
            } else if !self.is_read_only_spec() && self.writer() is None {
                Err(RenderContractError::MissingWriteFunction)
            } else {
                Ok(())
            },
    {
        if self.address_ranges.len() == 0 {
            Err(RenderContractError::NoAddressRange)
        } else if !self.read_only && self.write_function.is_none() {
            Err(RenderContractError::MissingWriteFunction)
        } else {
            Ok(())
        }
    }

    /// Whether the region picker is drawn: there is more than one range.
    pub fn shows_region_picker(&self) -> (r: bool)
        ensures
            r == (self.ranges().len() > 1),
    {
        self.address_ranges.len() > 1
    }

    /// Selects the range named `name`; a name that no range has is ignored.
    pub fn select_address_range(&mut self, name: &String)
        requires
            old(self).wf(),
        ensures
            final(self).wf(),
            final(self).same_but_options(old(self)),
            same_settings(final(self).opts(), old(self).opts()),
            final(self).opts().column_count == old(self).opts().column_count,
            final(self).opts().combo_box_enabled == old(self).opts().combo_box_enabled,
            final(self).selected() == if has_name(old(self).ranges(), name@) {
                name@
            } else {
                old(self).selected()
            },
    {
        if self.address_ranges.find(name).is_some() {
            self.options.selected_address_range = name.clone();
        }
    }

    /// Sets the number of columns, brought into `[1, 64]`.
    pub fn set_column_count(&mut self, column_count: usize)
        requires
            old(self).wf(),
        ensures
            final(self).wf(),
            final(self).same_but_options(old(self)),
            same_settings(final(self).opts(), old(self).opts()),
            final(self).opts().column_count == spec_clamp_columns(column_count as int),
            final(self).opts().combo_box_enabled == old(self).opts().combo_box_enabled,
            final(self).selected() == old(self).selected(),
    {
        self.options.column_count = clamp_column_count(column_count);
    }

    /// Sets the flags of the options area: the ASCII sidebar, zero
    /// highlighting, and whether the window is open.
    pub fn set_flags(&mut self, show_ascii_sidebar: bool, show_zero_colour: bool, is_open: bool)
        requires
            old(self).wf(),
        ensures
            final(self).wf(),
            final(self).same_but_options(old(self)),
            final(self).opts().show_ascii_sidebar == show_ascii_sidebar,
            final(self).opts().show_zero_colour == show_zero_colour,
            final(self).opts().is_open == is_open,
            final(self).opts().zero_colour == old(self).opts().zero_colour,
            final(self).opts().address_text_colour == old(self).opts().address_text_colour,
            final(self).opts().memory_editor_text_style == old(self).opts().memory_editor_text_style,
            final(self).opts().memory_editor_address_text_style == old(
                self,
            ).opts().memory_editor_address_text_style,
            final(self).opts().memory_editor_ascii_text_style == old(
                self,
            ).opts().memory_editor_ascii_text_style,
            final(self).opts().column_count == old(self).opts().column_count,
            final(self).opts().combo_box_enabled == old(self).opts().combo_box_enabled,
            final(self).selected() == old(self).selected(),
    {
        self.options.show_ascii_sidebar = show_ascii_sidebar;
        self.options.show_zero_colour = show_zero_colour;
        self.options.is_open = is_open;
    }

    /// The selected range.
    pub fn selected_range(&self) -> (r: &AddressRange)
        requires
            self.wf(),
            self.ranges().len() > 0,
        ensures
            *r == self.selected_range_spec(),
            lookup(self.ranges(), self.selected()) == Some(*r),
            r.wf(),
    {
        match self.address_ranges.get(&self.options.selected_address_range) {
            Some(range) => range,
            None => {
                proof {
                    assert(false);
                }
                self.address_ranges.first().unwrap()
            },
        }
    }

    /// The geometry of the selected region at the current column count.
    pub fn region_layout(&self) -> (r: RegionLayout)
        requires
            self.wf(),
            self.ranges().len() > 0,
        ensures
            r.start == self.selected_range_spec().start,
            r.end == self.selected_range_spec().end,
            r.start <= r.end,
            r.column_count == self.opts().column_count,
            MIN_COLUMNS <= r.column_count <= MAX_COLUMNS,
            r.row_count == ceil_div(r.end - r.start, r.column_count as int),
            r.address_digits == hex_len(r.end as nat),
    {
        let range = self.selected_range();
        let column_count = self.options.column_count;
        RegionLayout {
            start: range.start,
            end: range.end,
            column_count,
            row_count: row_count(range.len(), column_count),
            address_digits: address_digit_count(range.end),
        }
    }

    /// The rows of the selected region that a viewport shows, scrolled down
    /// by `scroll_offset`, `viewport_height` high, with rows `line_height`
    /// high.
    pub fn visible_window(&self, line_height: u32, scroll_offset: u64, viewport_height: u64) -> (r:
        RowWindow)
        requires
            self.wf(),
            self.ranges().len() > 0,
        ensures
            ({
                let sel = self.selected_range_spec();
                let rows = ceil_div(sel.end - sel.start, self.opts().column_count as int);
                &&& r.first_row == spec_first_row(rows, line_height as int, scroll_offset as int)
                &&& r.last_row == spec_last_row(
                    rows,
                    line_height as int,
                    scroll_offset as int,
                    viewport_height as int,
                )
                &&& r.first_row <= r.last_row <= rows
            }),
    {
        let layout = self.region_layout();
        visible_rows(layout.row_count, line_height, scroll_offset, viewport_height)
    }

    /// Every address that the rows of `window` read from the selected
    /// region, row after row; each is read once per frame.
    pub fn frame_read_addresses(&self, window: RowWindow) -> (r: Vec<usize>)
        requires
            self.wf(),
            self.ranges().len() > 0,
            window.first_row <= window.last_row <= ceil_div(
                self.selected_range_spec().end - self.selected_range_spec().start,
                self.opts().column_count as int,
            ),
        ensures
            r@.map_values(|a: usize| a as int) == self.frame_reads(window),
    {
        let layout = self.region_layout();
        rows_cell_addresses(
            layout.start,
            layout.end,
            layout.column_count,
            window.first_row,
            window.last_row,
        )
    }

    /// The addresses that a frame showing `window` reads.
    pub open spec fn frame_reads(&self, window: RowWindow) -> Seq<int> {
        let sel = self.selected_range_spec();
        rows_addresses(
            sel.start as int,
            sel.end as int,
            self.opts().column_count as int,
            window.first_row as int,
            window.last_row as int,
        )
    }

    /// The addresses of row `row` of the selected region.
    pub fn row_addresses(&self, row: usize) -> (r: Vec<usize>)
        requires
            self.wf(),
            self.ranges().len() > 0,
            row < ceil_div(
                self.selected_range_spec().end - self.selected_range_spec().start,
                self.opts().column_count as int,
            ),
        ensures
            r@.map_values(|a: usize| a as int) == row_addresses(
                self.selected_range_spec().start as int,
                self.selected_range_spec().end as int,
                self.opts().column_count as int,
                row as int,
            ),
    {
        let layout = self.region_layout();
        row_cell_addresses(layout.start, layout.end, layout.column_count, row)
    }

    /// The address label of row `row`: `0x` and the row's first address, in
    /// as many digits as the region's end takes.
    pub fn row_label(&self, row: usize) -> (r: String)
        requires
            self.wf(),
            self.ranges().len() > 0,
            row < ceil_div(
                self.selected_range_spec().end - self.selected_range_spec().start,
                self.opts().column_count as int,
            ),
        ensures
            ({
                let sel = self.selected_range_spec();
                let address = sel.start + row * self.opts().column_count;
                r@ == seq!['0', 'x'] + hex_pad(address as nat, hex_len(sel.end as nat))
            }),
    {
        let layout = self.region_layout();
        assert(row * layout.column_count < layout.end - layout.start) by (nonlinear_arith)
            requires
                row < (layout.end - layout.start + layout.column_count - 1)
                    / layout.column_count as int,
                layout.column_count >= 1,
                layout.start <= layout.end,
        ;
        address_label(layout.start + row * layout.column_count, layout.address_digits)
    }

    /// The colour of a byte cell holding `value`: the zero colour when zero
    /// highlighting is on and the byte is zero, else the theme's (`None`).
    pub fn cell_colour(&self, value: u8) -> (r: Option<Colour>)
        ensures
            r == spec_cell_colour(self.opts().show_zero_colour, self.opts().zero_colour, value),
    {
        self.options.cell_colour(value)
    }

    /// The write that a confirmed edit of `address` to `value` makes: the
    /// pair itself, when edits are allowed, a write accessor was given and
    /// the address lies in the selected region; else none.
    pub fn write_request(&self, address: usize, value: u8) -> (r: Option<(usize, u8)>)
        requires
            self.wf(),
        ensures
            r == self.write_request_spec(address, value),
    {
        if self.read_only || self.write_function.is_none() || self.address_ranges.len() == 0 {
            None
        } else if self.selected_range().contains(address) {
            Some((address, value))
        } else {
            None
        }
    }

    pub open spec fn write_request_spec(&self, address: usize, value: u8) -> Option<(usize, u8)> {
        if !self.is_read_only_spec() && self.writer() is Some && self.ranges().len() > 0
            && self.selected_range_spec().spec_contains(address as int) {
            Some((address, value))
        } else {
            None
        }
    }

    /// The largest width that the contents may take this frame: their
    /// natural width, or the previous frame's width if that was wider.
    pub fn max_width(&self, natural_width: u32) -> (r: u32)
        ensures
            r == spec_max_width(self.previous_width(), natural_width),
    {
        self.frame_data.max_width(natural_width)
    }

    /// Records the width that this frame's contents took, for the next frame.
    pub fn record_frame_width(&mut self, width: u32)
        ensures
            final(self).previous_width() == width,
            final(self).title() == old(self).title(),
            final(self).reader() == old(self).reader(),
            final(self).writer() == old(self).writer(),
            final(self).ranges() == old(self).ranges(),
            final(self).is_read_only_spec() == old(self).is_read_only_spec(),
            final(self).opts() == old(self).opts(),
            old(self).wf() ==> final(self).wf(),
    {
        self.frame_data.record_width(width);
    }
}

/// The region picker is drawn exactly when there is more than one range;
/// with a single range, that range is the one selected.
pub proof fn lemma_region_picker<R, W>(e: &MemoryEditor<R, W>)
    requires
        e.wf(),
    ensures
        e.opts().combo_box_enabled == (e.ranges().len() > 1),
        e.ranges().len() == 1 ==> e.selected_range_spec() == e.ranges()[0] && e.selected()
            == e.ranges()[0].name@,
{
    e.lemma_wf();
    if e.ranges().len() == 1 {
        let p = position_of(e.ranges(), e.selected());
        assert(0 <= p < 1);
    }
}

/// Every row label of the selected region has the same length: `0x` and the
/// digits of the region's end.
pub proof fn lemma_row_label_width<R, W>(e: &MemoryEditor<R, W>, row: int)
    requires
        e.wf(),
        e.ranges().len() > 0,
        0 <= row < ceil_div(
            e.selected_range_spec().end - e.selected_range_spec().start,
            e.opts().column_count as int,
        ),
    ensures
        ({
            let sel = e.selected_range_spec();
            let address = sel.start + row * e.opts().column_count;
            (seq!['0', 'x'] + hex_pad(address as nat, hex_len(sel.end as nat))).len() == 2
                + hex_len(sel.end as nat)
        }),
{
    e.lemma_wf();
    let sel = e.selected_range_spec();
    let cc = e.opts().column_count as int;
    assert(sel == lookup(e.ranges(), e.selected())->Some_0);
    let p = position_of(e.ranges(), e.selected());
    assert(e.ranges()[p].wf());
    assert(0 <= row * cc < sel.end - sel.start) by (nonlinear_arith)
        requires
            row < (sel.end - sel.start + cc - 1) / cc,
            cc >= 1,
            row >= 0,
            sel.start <= sel.end,
    ;
    lemma_label_width_stable((sel.start + row * cc) as nat, sel.end as nat);
}

/// Two frames over the same ranges, selection and column count read the
/// same addresses, in the same order, as many times; every one of them lies in
/// the selected region.
pub proof fn lemma_frame_reads_repeat<R, W>(
    e1: &MemoryEditor<R, W>,
    e2: &MemoryEditor<R, W>,
    window: RowWindow,
)
    requires
        e1.wf(),
        e1.ranges().len() > 0,
        e1.ranges() == e2.ranges(),
        e1.selected() == e2.selected(),
        e1.opts().column_count == e2.opts().column_count,
    ensures
        e1.frame_reads(window) == e2.frame_reads(window),
        forall|k: int|
            0 <= k < e1.frame_reads(window).len() ==> e1.selected_range_spec().spec_contains(
                #[trigger] e1.frame_reads(window)[k],
            ),
{
    e1.lemma_wf();
    let sel = e1.selected_range_spec();
    let p = position_of(e1.ranges(), e1.selected());
    assert(e1.ranges()[p].wf());
    lemma_rows_addresses_in_region(
        sel.start as int,
        sel.end as int,
        e1.opts().column_count as int,
        window.first_row as int,
        window.last_row as int,
    );
}

/// The write that an edit of `address` to `value` makes targets that address
/// with that value, so a store that applies it reads `value` back there.
pub proof fn lemma_edit_round_trip<R, W>(
    e: &MemoryEditor<R, W>,
    memory: Map<int, u8>,
    address: usize,
    value: u8,
)
    requires
        e.wf(),
        e.write_request_spec(address, value) is Some,
    ensures
        ({
            let (a, v) = e.write_request_spec(address, value)->Some_0;
            &&& a == address
            &&& v == value
            &&& memory.insert(a as int, v)[address as int] == value
        }),
{
}

/// Once a frame has recorded width `w1`, a next frame whose natural width
/// `w2` is narrower is still given at least `w1`.
pub proof fn lemma_width_never_shrinks<R, W>(e: &MemoryEditor<R, W>, w1: u32, w2: u32)
    requires
        e.previous_width() == w1,
        w2 < w1,
    ensures
        spec_max_width(e.previous_width(), w2) >= w1,
{
}

/// `a` and `b` agree on every option but the column count, the picker flag
/// and the selected range.
pub open spec fn same_settings(a: MemoryEditorOptions, b: MemoryEditorOptions) -> bool {
    &&& a.is_open == b.is_open
    &&& a.show_ascii_sidebar == b.show_ascii_sidebar
    &&& a.show_zero_colour == b.show_zero_colour
    &&& a.zero_colour == b.zero_colour
    &&& a.address_text_colour == b.address_text_colour
    &&& a.memory_editor_text_style == b.memory_editor_text_style
    &&& a.memory_editor_address_text_style == b.memory_editor_address_text_style
    &&& a.memory_editor_ascii_text_style == b.memory_editor_ascii_text_style
}

} // verus!
