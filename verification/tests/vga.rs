use lum_os_kernel::vga::{Color, ColorCode, Writer, BUFFER_HEIGHT, BUFFER_WIDTH, PLACEHOLDER};

#[test]
fn color_code_packs_nibbles() {
    assert_eq!(ColorCode::new(Color::Yellow, Color::Black).attr(), 14);
    assert_eq!(ColorCode::new(Color::White, Color::Red).attr(), 4 * 16 + 15);
    assert_eq!(ColorCode::new(Color::Black, Color::White).attr(), 15 * 16);
}

#[test]
fn fresh_writer_is_blank() {
    let w = Writer::new();
    assert_eq!(w.cursor_column(), 0);
    for row in [0usize, 12, BUFFER_HEIGHT - 1] {
        for col in [0usize, 40, BUFFER_WIDTH - 1] {
            let cell = w.cell_at(row, col);
            assert_eq!(cell.ascii_char, b' ');
            assert_eq!(cell.colors, ColorCode::new(Color::White, Color::Black));
        }
    }
}

#[test]
fn write_then_read_printable_byte() {
    let mut w = Writer::new();
    w.set_colors(Color::Yellow, Color::Black);
    w.write_byte(b'X');
    let cell = w.cell_at(BUFFER_HEIGHT - 1, 0);
    assert_eq!(cell.ascii_char, b'X');
    assert_eq!(cell.colors, ColorCode::new(Color::Yellow, Color::Black));
    assert_eq!(w.cursor_column(), 1);
}

#[test]
fn every_printable_byte_reads_back_exactly() {
    for b in 0x20u8..=0x7e {
        let mut w = Writer::new();
        w.set_colors(Color::Green, Color::Blue);
        w.write_string(core::str::from_utf8(&[b]).unwrap());
        let cell = w.cell_at(BUFFER_HEIGHT - 1, 0);
        assert_eq!(cell.ascii_char, b);
        assert_eq!(cell.colors, ColorCode::new(Color::Green, Color::Blue));
    }
}

#[test]
fn nonprintable_byte_becomes_placeholder() {
    let mut w = Writer::new();
    w.write_string("\u{7}");
    let cell = w.cell_at(BUFFER_HEIGHT - 1, 0);
    assert_eq!(cell.ascii_char, PLACEHOLDER);
}

#[test]
fn non_ascii_text_becomes_placeholders() {
    // A two-byte UTF-8 character turns into two placeholder cells.
    let mut w = Writer::new();
    w.write_string("é");
    assert_eq!(w.cell_at(BUFFER_HEIGHT - 1, 0).ascii_char, PLACEHOLDER);
    assert_eq!(w.cell_at(BUFFER_HEIGHT - 1, 1).ascii_char, PLACEHOLDER);
    assert_eq!(w.cursor_column(), 2);
}

#[test]
fn writing_past_last_column_scrolls_once() {
    let mut w = Writer::new();
    for _ in 0..BUFFER_WIDTH {
        w.write_byte(b'A');
    }
    assert_eq!(w.cursor_column(), BUFFER_WIDTH);
    // The 81st byte scrolls: the full line moves up, the bottom row is
    // cleared, and the byte lands at column 0.
    w.write_byte(b'B');
    assert_eq!(w.cursor_column(), 1);
    for col in 0..BUFFER_WIDTH {
        assert_eq!(w.cell_at(BUFFER_HEIGHT - 2, col).ascii_char, b'A');
        // Only one scroll happened: the row above is still blank.
        assert_eq!(w.cell_at(BUFFER_HEIGHT - 3, col).ascii_char, b' ');
    }
    assert_eq!(w.cell_at(BUFFER_HEIGHT - 1, 0).ascii_char, b'B');
    assert_eq!(w.cell_at(BUFFER_HEIGHT - 1, 1).ascii_char, b' ');
}

#[test]
fn ninety_chars_scroll_exactly_once() {
    let mut w = Writer::new();
    let line: String = core::iter::repeat('A').take(90).collect();
    w.write_string(&line);
    assert_eq!(w.cursor_column(), 10);
    for col in 0..BUFFER_WIDTH {
        assert_eq!(w.cell_at(BUFFER_HEIGHT - 2, col).ascii_char, b'A');
        assert_eq!(w.cell_at(BUFFER_HEIGHT - 3, col).ascii_char, b' ');
    }
    for col in 0..10 {
        assert_eq!(w.cell_at(BUFFER_HEIGHT - 1, col).ascii_char, b'A');
    }
    assert_eq!(w.cell_at(BUFFER_HEIGHT - 1, 10).ascii_char, b' ');
}

#[test]
fn newline_scrolls_and_resets_column() {
    let mut w = Writer::new();
    w.write_string("ab\n");
    assert_eq!(w.cursor_column(), 0);
    assert_eq!(w.cell_at(BUFFER_HEIGHT - 2, 0).ascii_char, b'a');
    assert_eq!(w.cell_at(BUFFER_HEIGHT - 2, 1).ascii_char, b'b');
    assert_eq!(w.cell_at(BUFFER_HEIGHT - 1, 0).ascii_char, b' ');
}

#[test]
fn scroll_clears_bottom_row_in_active_colors() {
    let mut w = Writer::new();
    w.set_colors(Color::Red, Color::Black);
    w.write_byte(b'\n');
    let cell = w.cell_at(BUFFER_HEIGHT - 1, 40);
    assert_eq!(cell.ascii_char, b' ');
    assert_eq!(cell.colors, ColorCode::new(Color::Red, Color::Black));
}
