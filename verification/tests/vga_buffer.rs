//! Behavioral tests of the writer: line placement, wrapping, scrolling,
//! fallback glyph substitution and attribute packing.

use ian_os::vga_buffer::{Color, ColorCode, Writer, BUFFER_HEIGHT, BUFFER_WIDTH};

fn fresh() -> Writer {
    Writer::new(Color::LightGreen, Color::Black)
}

fn assert_row_is(w: &Writer, row: usize, expected: &str) {
    let bytes = expected.as_bytes();
    assert!(bytes.len() <= BUFFER_WIDTH);
    for (i, &b) in bytes.iter().enumerate() {
        assert_eq!(w.char_at(row, i), b);
    }
}

fn assert_row_blank(w: &Writer, row: usize) {
    for c in 0..BUFFER_WIDTH {
        assert_eq!(w.char_at(row, c), b' ');
    }
}

#[test]
fn test_println_simple() {
    let mut w = fresh();
    w.println_str("test_println_simple output");
    assert_row_is(&w, BUFFER_HEIGHT - 2, "test_println_simple output");
    assert_eq!(w.column(), 0);
}

#[test]
fn test_println_many() {
    let mut w = fresh();
    for _ in 0..200 {
        w.println_str("test_println_many output");
        assert_eq!(w.column(), 0);
    }
    assert_row_is(&w, BUFFER_HEIGHT - 2, "test_println_many output");
}

#[test]
fn test_println_output() {
    let mut w = fresh();
    let s = "This is a single line string to test print output.";
    w.println_str(s);
    assert_row_is(&w, BUFFER_HEIGHT - 2, s);
    for c in s.len()..BUFFER_WIDTH {
        assert_eq!(w.char_at(BUFFER_HEIGHT - 2, c), b' ');
    }
    assert_row_blank(&w, BUFFER_HEIGHT - 1);
}

#[test]
fn test_print_output_linewrap() {
    let mut w = fresh();
    let line1 = "This is a multi line string to test the wrapping of the VGA writer. This is a ha";
    let line2 = "ndful of extra characters.";
    w.write_string(line1);
    w.write_string(line2);
    // 106 printable bytes split at the width boundary: 80 above, 26 below.
    assert_row_is(&w, BUFFER_HEIGHT - 2, &line1[..BUFFER_WIDTH]);
    let rest = format!("{}{}", &line1[BUFFER_WIDTH..], line2);
    assert_row_is(&w, BUFFER_HEIGHT - 1, &rest);
    assert_eq!(w.column(), line1.len() + line2.len() - BUFFER_WIDTH);
}

#[test]
fn test_println_output_linewrap() {
    let mut w = fresh();
    let line1 = "This is a multi line string to test the wrapping of the VGA writer. This is a ha";
    let line2 = "ndful of extra characters.";
    let both = format!("{}{}", line1, line2);
    w.println_str(&both);
    // The trailing newline scrolls once more: the two halves sit one row
    // higher and the bottom row is blank again.
    assert_row_is(&w, BUFFER_HEIGHT - 3, &both[..BUFFER_WIDTH]);
    assert_row_is(&w, BUFFER_HEIGHT - 2, &both[BUFFER_WIDTH..]);
    assert_row_blank(&w, BUFFER_HEIGHT - 1);
    assert_eq!(w.column(), 0);
}

#[test]
fn test_exact_width_line_fills_without_wrap() {
    let mut w = fresh();
    let s = "x".repeat(BUFFER_WIDTH);
    w.write_string(&s);
    assert_eq!(w.column(), BUFFER_WIDTH);
    assert_row_is(&w, BUFFER_HEIGHT - 1, &s);
    // Every other row is still blank: no scroll has happened yet.
    assert_row_blank(&w, BUFFER_HEIGHT - 2);
    // The next printable byte triggers the scroll before it is placed.
    w.write_byte(b'y');
    assert_eq!(w.column(), 1);
    assert_row_is(&w, BUFFER_HEIGHT - 2, &s);
    assert_eq!(w.char_at(BUFFER_HEIGHT - 1, 0), b'y');
}

#[test]
fn test_fallback_glyph_substitution() {
    let mut w = fresh();
    // A control byte, a DEL byte and a two-byte non-ASCII character: every
    // byte outside [0x20, 0x7e) that is not a newline becomes 0xfe.
    w.write_string("a\x01b\x7fc\u{00e4}");
    assert_eq!(w.char_at(BUFFER_HEIGHT - 1, 0), b'a');
    assert_eq!(w.char_at(BUFFER_HEIGHT - 1, 1), 0xfe);
    assert_eq!(w.char_at(BUFFER_HEIGHT - 1, 2), b'b');
    assert_eq!(w.char_at(BUFFER_HEIGHT - 1, 3), 0xfe);
    assert_eq!(w.char_at(BUFFER_HEIGHT - 1, 4), b'c');
    assert_eq!(w.char_at(BUFFER_HEIGHT - 1, 5), 0xfe);
    assert_eq!(w.char_at(BUFFER_HEIGHT - 1, 6), 0xfe);
    assert_eq!(w.column(), 7);
}

#[test]
fn test_write_byte_places_raw_byte() {
    let mut w = fresh();
    w.write_byte(b'A');
    w.write_byte(b'B');
    assert_eq!(w.char_at(BUFFER_HEIGHT - 1, 0), b'A');
    assert_eq!(w.char_at(BUFFER_HEIGHT - 1, 1), b'B');
    assert_eq!(w.column(), 2);
}

#[test]
fn test_consecutive_newlines_scroll_once_each() {
    let mut w = fresh();
    w.write_string("top");
    w.write_byte(b'\n');
    w.write_byte(b'\n');
    // Two newlines scroll twice: "top" has moved up two rows.
    assert_row_is(&w, BUFFER_HEIGHT - 3, "top");
    assert_row_blank(&w, BUFFER_HEIGHT - 2);
    assert_row_blank(&w, BUFFER_HEIGHT - 1);
    assert_eq!(w.column(), 0);
}

#[test]
fn test_new_line_height_times_clears_surface() {
    let mut w = fresh();
    w.write_string("some content that should be evicted");
    w.write_byte(b'\n');
    w.write_string("more content");
    for _ in 0..BUFFER_HEIGHT {
        w.new_line();
    }
    for r in 0..BUFFER_HEIGHT {
        assert_row_blank(&w, r);
    }
    assert_eq!(w.column(), 0);
}

#[test]
fn test_consecutive_printlns_shift_rows() {
    let mut w = fresh();
    w.println_str("first");
    assert_row_is(&w, BUFFER_HEIGHT - 2, "first");
    w.println_str("second");
    // Each println shifts the earlier output up by one more row.
    assert_row_is(&w, BUFFER_HEIGHT - 3, "first");
    assert_row_is(&w, BUFFER_HEIGHT - 2, "second");
    assert_row_blank(&w, BUFFER_HEIGHT - 1);
}

#[test]
fn test_clear_row_is_idempotent() {
    let mut w = fresh();
    w.write_string("something on the bottom row");
    let row = BUFFER_HEIGHT - 1;
    w.clear_row(row);
    let once: Vec<_> = (0..BUFFER_WIDTH).map(|c| w.cell_at(row, c)).collect();
    w.clear_row(row);
    let twice: Vec<_> = (0..BUFFER_WIDTH).map(|c| w.cell_at(row, c)).collect();
    assert_eq!(once, twice);
    assert_row_blank(&w, row);
}

#[test]
fn test_clear_row_leaves_other_rows() {
    let mut w = fresh();
    w.write_string("kept");
    w.write_byte(b'\n');
    w.write_string("gone");
    w.clear_row(BUFFER_HEIGHT - 1);
    assert_row_is(&w, BUFFER_HEIGHT - 2, "kept");
    assert_row_blank(&w, BUFFER_HEIGHT - 1);
}

#[test]
fn test_color_code_packs_nibbles() {
    // background << 4 | foreground: Blue is 1, Yellow is 14.
    assert_eq!(ColorCode::new(Color::Yellow, Color::Blue).byte(), 0x1e);
    assert_eq!(ColorCode::new(Color::Black, Color::Black).byte(), 0x00);
    assert_eq!(ColorCode::new(Color::White, Color::White).byte(), 0xff);
    assert_eq!(ColorCode::new(Color::LightGreen, Color::Black).byte(), 0x0a);
}

#[test]
fn test_cells_carry_current_attribute() {
    let mut w = fresh();
    w.write_string("A");
    let cell = w.cell_at(BUFFER_HEIGHT - 1, 0);
    assert_eq!(cell.ascii_character, b'A');
    assert_eq!(cell.color_code, ColorCode::new(Color::LightGreen, Color::Black));
}
