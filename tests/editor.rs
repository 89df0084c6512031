use egui_memory_editor::editor::{MemoryEditor, RenderContractError};
use egui_memory_editor::layout::{chunk_count, chunk_width, row_cell_addresses, row_count};
use egui_memory_editor::options::{clamp_column_count, MemoryEditorOptions};
use egui_memory_editor::registry::name_less;
use egui_memory_editor::text::{address_digit_count, address_label, ascii_char, byte_label, format_hex};
use egui_memory_editor::viewport::{content_height, visible_rows, RowWindow};

type ReadFn = fn(&mut Vec<u8>, usize) -> u8;
type WriteFn = fn(&mut Vec<u8>, usize, u8);
type Editor = MemoryEditor<ReadFn, WriteFn>;

fn read_byte(memory: &mut Vec<u8>, address: usize) -> u8 {
    memory[address]
}

fn write_byte(memory: &mut Vec<u8>, address: usize, value: u8) {
    memory[address] = value;
}

fn editor() -> Editor {
    MemoryEditor::new(read_byte as ReadFn)
}

fn ram_editor(column_count: usize) -> Editor {
    let mut e = editor()
        .with_write_function(write_byte as WriteFn)
        .with_address_range("RAM".to_string(), 0..16);
    e.set_column_count(column_count);
    e
}

#[test]
fn ram_region_of_sixteen_bytes_in_two_rows() {
    let e = ram_editor(8);
    let layout = e.region_layout();
    assert_eq!(layout.row_count, 2);
    assert_eq!(e.row_addresses(0), vec![0, 1, 2, 3, 4, 5, 6, 7]);
    assert_eq!(e.row_addresses(1), vec![8, 9, 10, 11, 12, 13, 14, 15]);
    assert_eq!(layout.address_digits, format!("{:X}", 16usize).len());
    assert_eq!(layout.address_digits, 2);
    assert_eq!(e.row_label(0), "0x00");
    assert_eq!(e.row_label(1), "0x08");
}

#[test]
fn render_contract_needs_write_function_unless_read_only() {
    let e = editor().with_address_range("RAM".to_string(), 0..16);
    assert_eq!(e.check_render_contract(), Err(RenderContractError::MissingWriteFunction));
    let e = e.with_read_only(true);
    assert_eq!(e.check_render_contract(), Ok(()));
    let e = e.with_read_only(false).with_write_function(write_byte as WriteFn);
    assert_eq!(e.check_render_contract(), Ok(()));
}

#[test]
fn render_contract_needs_an_address_range() {
    let e = editor().with_read_only(true);
    assert_eq!(e.check_render_contract(), Err(RenderContractError::NoAddressRange));
}

#[test]
fn zero_bytes_take_the_zero_colour_only_when_enabled() {
    let mut e = ram_editor(8);
    let zero = e.options().zero_colour;
    assert_eq!(e.cell_colour(0), Some(zero));
    assert_eq!(e.cell_colour(1), None);
    e.set_flags(true, false, true);
    assert_eq!(e.cell_colour(0), None);
    assert_eq!(e.cell_colour(1), None);
}

#[test]
fn last_row_holds_what_is_left() {
    assert_eq!(row_count(10, 4), 3);
    assert_eq!(row_cell_addresses(100, 110, 4, 2), vec![108, 109]);
    assert_eq!(row_cell_addresses(100, 110, 4, 0), vec![100, 101, 102, 103]);
    assert_eq!(row_count(16, 8), 2);
    assert_eq!(row_count(17, 8), 3);
    assert_eq!(row_count(0, 8), 0);
    assert_eq!(row_count(64, 1), 64);
}

#[test]
fn chunks_of_eight_columns() {
    assert_eq!(chunk_count(16), 2);
    assert_eq!(chunk_count(12), 2);
    assert_eq!(chunk_count(1), 1);
    assert_eq!(chunk_count(64), 8);
    assert_eq!(chunk_width(12, 0), 8);
    assert_eq!(chunk_width(12, 1), 4);
    assert_eq!(chunk_width(16, 1), 8);
}

#[test]
fn visible_rows_of_a_viewport() {
    assert_eq!(visible_rows(100, 10, 25, 30), RowWindow { first_row: 2, last_row: 6 });
    assert_eq!(visible_rows(100, 10, 20, 30), RowWindow { first_row: 2, last_row: 5 });
    assert_eq!(visible_rows(3, 10, 0, 1000), RowWindow { first_row: 0, last_row: 3 });
    assert_eq!(visible_rows(0, 10, 0, 1000), RowWindow { first_row: 0, last_row: 0 });
    assert_eq!(visible_rows(5, 10, 500, 30), RowWindow { first_row: 5, last_row: 5 });
    assert_eq!(visible_rows(100, 10, 25, 0), RowWindow { first_row: 2, last_row: 2 });
    assert_eq!(content_height(1000, 17), 17000);
}

#[test]
fn region_picker_only_with_more_than_one_range() {
    let e = editor().with_read_only(true).with_address_range("RAM".to_string(), 0..16);
    assert!(!e.shows_region_picker());
    assert!(!e.options().combo_box_enabled);
    assert_eq!(e.selected_range().name, "RAM");
    let e = e.with_address_range("ROM".to_string(), 16..32);
    assert!(e.shows_region_picker());
    assert!(e.options().combo_box_enabled);
    assert_eq!(e.selected_range().name, "RAM");
    assert_eq!(e.address_ranges().sorted_names(), vec!["RAM".to_string(), "ROM".to_string()]);
}

#[test]
fn first_added_range_stays_selected() {
    let e = editor()
        .with_address_range("Zeta".to_string(), 0..4)
        .with_address_range("Alpha".to_string(), 4..8);
    assert_eq!(e.options().selected_address_range, "Zeta");
    let layout = e.region_layout();
    assert_eq!((layout.start, layout.end), (0, 4));
}

#[test]
fn adding_a_range_again_replaces_it() {
    let e = editor()
        .with_address_range("RAM".to_string(), 0..16)
        .with_address_range("RAM".to_string(), 32..48);
    assert!(!e.shows_region_picker());
    assert_eq!(e.address_ranges().len(), 1);
    let r = e.selected_range();
    assert_eq!((r.start, r.end), (32, 48));
}

#[test]
fn selecting_an_unknown_range_is_ignored() {
    let mut e = editor()
        .with_address_range("RAM".to_string(), 0..16)
        .with_address_range("ROM".to_string(), 16..32);
    e.select_address_range(&"VRAM".to_string());
    assert_eq!(e.options().selected_address_range, "RAM");
    e.select_address_range(&"ROM".to_string());
    assert_eq!(e.options().selected_address_range, "ROM");
    assert_eq!(e.row_label(0), "0x10");
}

#[test]
fn options_are_brought_into_range() {
    let e = editor().with_address_range("RAM".to_string(), 0..16);
    let mut options = MemoryEditorOptions::default();
    options.column_count = 0;
    options.selected_address_range = "Missing".to_string();
    options.combo_box_enabled = true;
    let e = e.with_options(options);
    assert_eq!(e.options().column_count, 1);
    assert_eq!(e.options().selected_address_range, "RAM");
    assert!(!e.options().combo_box_enabled);
    let mut options = MemoryEditorOptions::default();
    options.column_count = 100;
    let e = e.with_options(options);
    assert_eq!(e.options().column_count, 64);
    assert_eq!(clamp_column_count(0), 1);
    assert_eq!(clamp_column_count(65), 64);
    assert_eq!(clamp_column_count(12), 12);
}

#[test]
fn column_count_is_clamped() {
    let mut e = ram_editor(200);
    assert_eq!(e.options().column_count, 64);
    assert_eq!(e.region_layout().row_count, 1);
    e.set_column_count(0);
    assert_eq!(e.options().column_count, 1);
    assert_eq!(e.region_layout().row_count, 16);
}

#[test]
fn new_editor_defaults() {
    let e = editor();
    assert_eq!(e.window_title(), "Memory Editor");
    assert!(!e.is_read_only());
    assert!(e.write_function().is_none());
    assert_eq!(e.address_ranges().len(), 0);
    assert_eq!(e.options().column_count, 16);
    assert_eq!(e.max_width(0), 0);
    let e = e.with_window_title("Inspector".to_string());
    assert_eq!(e.window_title(), "Inspector");
}

#[test]
fn writes_only_when_editable_and_in_range() {
    let e = ram_editor(8);
    assert_eq!(e.write_request(3, 0xAA), Some((3, 0xAA)));
    assert_eq!(e.write_request(16, 0xAA), None);
    let ro = e.with_read_only(true);
    assert_eq!(ro.write_request(3, 0xAA), None);
    let no_writer = editor().with_address_range("RAM".to_string(), 0..16);
    assert_eq!(no_writer.write_request(3, 0xAA), None);
}

#[test]
fn an_edit_reads_back() {
    let e = ram_editor(8);
    let mut memory: Vec<u8> = vec![0; 16];
    let (address, value) = e.write_request(5, 0x7F).unwrap();
    (e.write_function().unwrap())(&mut memory, address, value);
    assert_eq!((e.read_function())(&mut memory, 5), 0x7F);
}

#[test]
fn a_frame_repeats_its_reads() {
    let e = ram_editor(6);
    let window = e.visible_window(10, 0, 25);
    assert_eq!(window, RowWindow { first_row: 0, last_row: 3 });
    let first = e.frame_read_addresses(window);
    let second = e.frame_read_addresses(window);
    assert_eq!(first, second);
    assert_eq!(first, (0..16).collect::<Vec<usize>>());
    let window = e.visible_window(10, 12, 5);
    assert_eq!(e.frame_read_addresses(window), vec![6, 7, 8, 9, 10, 11]);
}

#[test]
fn width_does_not_shrink_with_narrower_content() {
    let mut e = ram_editor(8);
    e.record_frame_width(500);
    assert_eq!(e.max_width(300), 500);
    assert_eq!(e.max_width(600), 600);
}

#[test]
fn hexadecimal_text() {
    assert_eq!(byte_label(0xAB), "AB");
    assert_eq!(byte_label(5), "05");
    assert_eq!(byte_label(0), "00");
    assert_eq!(address_label(0x1F, 4), "0x001F");
    assert_eq!(address_label(0x12345, 2), "0x12345");
    assert_eq!(address_digit_count(0), 1);
    assert_eq!(address_digit_count(15), 1);
    assert_eq!(address_digit_count(16), 2);
    assert_eq!(address_digit_count(0x1000), 4);
    assert_eq!(format_hex(255, 0), vec!['F', 'F']);
}

#[test]
fn ascii_sidebar_characters() {
    assert_eq!(ascii_char(b'A'), 'A');
    assert_eq!(ascii_char(32), ' ');
    assert_eq!(ascii_char(31), '.');
    assert_eq!(ascii_char(127), 127 as char);
    assert_eq!(ascii_char(128), '.');
    assert_eq!(ascii_char(0), '.');
}

#[test]
fn address_labels_share_one_width() {
    let mut e = editor().with_read_only(true).with_address_range("IO".to_string(), 0..0x1000);
    e.set_column_count(16);
    let rows = e.region_layout().row_count;
    assert_eq!(rows, 256);
    assert_eq!(e.row_label(0), "0x0000");
    assert_eq!(e.row_label(rows - 1), "0x0FF0");
}

#[test]
fn region_picker_lists_names_in_ascending_order() {
    let e = editor()
        .with_read_only(true)
        .with_address_range("ROM".to_string(), 16..32)
        .with_address_range("RAM".to_string(), 0..16)
        .with_address_range("IO".to_string(), 32..48)
        .with_address_range("RAMB".to_string(), 48..64);
    assert_eq!(
        e.address_ranges().sorted_names(),
        vec!["IO".to_string(), "RAM".to_string(), "RAMB".to_string(), "ROM".to_string()]
    );
    assert_eq!(e.options().selected_address_range, "ROM");
}

#[test]
fn names_compare_as_strings_do() {
    let names = ["", "a", "B", "ab", "abc", "b", "\u{e9}", "z"];
    for x in names.iter() {
        for y in names.iter() {
            assert_eq!(name_less(&x.to_string(), &y.to_string()), x.to_string() < y.to_string());
        }
    }
}

#[test]
fn rows_of_no_height_show_nothing() {
    assert_eq!(visible_rows(10, 0, 0, 100), RowWindow { first_row: 0, last_row: 0 });
}
