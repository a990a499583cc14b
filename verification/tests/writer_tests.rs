use vga_text::color::{Color, ColorCode};
use vga_text::writer::{
    print_something, Writer, BLANK_BYTE, BUFFER_HEIGHT, BUFFER_WIDTH, LINE_FEED, PLACEHOLDER_GLYPH,
};

fn fresh() -> Writer {
    Writer::new(ColorCode::new(Color::Yellow, Color::Black))
}

#[test]
fn fresh_writer_starts_blank_at_column_zero() {
    let w = fresh();
    assert_eq!(w.column_position, 0);
    assert_eq!(w.color_code.0, 0x0E);
    for row in [0, 12, BUFFER_HEIGHT - 1] {
        for col in [0, 40, BUFFER_WIDTH - 1] {
            let c = w.cell(row, col);
            assert_eq!(c.ascii_char, BLANK_BYTE);
            assert_eq!(c.color_code.0, 0x0E);
        }
    }
}

#[test]
fn printable_bytes_are_forwarded_unchanged() {
    for b in [0x20u8, b'A', b'z', 0x7E] {
        let mut w = fresh();
        let s = String::from_utf8(vec![b]).unwrap();
        w.write_string(&s);
        assert_eq!(w.cell(BUFFER_HEIGHT - 1, 0).ascii_char, b);
        assert_eq!(w.column_position, 1);
    }
}

#[test]
fn line_feed_is_never_substituted() {
    let mut w = fresh();
    w.write_string("a\n");
    assert_eq!(w.column_position, 0);
    assert_eq!(w.cell(BUFFER_HEIGHT - 2, 0).ascii_char, b'a');
    assert_eq!(w.cell(BUFFER_HEIGHT - 1, 0).ascii_char, BLANK_BYTE);
}

#[test]
fn unprintable_bytes_become_the_placeholder() {
    for s in ["\x01", "\x1F", "\x7F"] {
        let mut w = fresh();
        w.write_string(s);
        let c = w.cell(BUFFER_HEIGHT - 1, 0);
        assert_eq!(c.ascii_char, PLACEHOLDER_GLYPH);
        assert_eq!(c.color_code.0, 0x0E);
        assert_eq!(w.column_position, 1);
    }
}

#[test]
fn multibyte_character_becomes_one_placeholder_per_byte() {
    let mut w = fresh();
    w.write_string("é");
    assert_eq!(w.column_position, 2);
    assert_eq!(w.cell(BUFFER_HEIGHT - 1, 0).ascii_char, PLACEHOLDER_GLYPH);
    assert_eq!(w.cell(BUFFER_HEIGHT - 1, 1).ascii_char, PLACEHOLDER_GLYPH);
}

#[test]
fn scenario_hello_with_yellow_on_black() {
    let mut w = fresh();
    w.write_string("Hello");
    let expected = [b'H', b'e', b'l', b'l', b'o'];
    for (col, ch) in expected.iter().enumerate() {
        let c = w.cell(BUFFER_HEIGHT - 1, col);
        assert_eq!(c.ascii_char, *ch);
        assert_eq!(c.color_code.0, 0x0E);
    }
    assert_eq!(w.column_position, 5);
}

#[test]
fn line_feed_resets_column_and_advances_the_row() {
    let mut w = fresh();
    w.write_byte(b'B');
    assert_eq!(w.column_position, 1);
    w.write_byte(LINE_FEED);
    assert_eq!(w.column_position, 0);
    assert_eq!(w.cell(BUFFER_HEIGHT - 2, 0).ascii_char, b'B');
    w.write_byte(b'A');
    assert_eq!(w.column_position, 1);
    assert_eq!(w.cell(BUFFER_HEIGHT - 1, 0).ascii_char, b'A');
    assert_eq!(w.cell(BUFFER_HEIGHT - 1, 1).ascii_char, BLANK_BYTE);
}

#[test]
fn writing_one_byte_past_the_width_wraps_once() {
    let mut w = fresh();
    for _ in 0..BUFFER_WIDTH {
        w.write_byte(b'x');
    }
    assert_eq!(w.column_position, BUFFER_WIDTH);
    assert_eq!(w.cell(BUFFER_HEIGHT - 1, BUFFER_WIDTH - 1).ascii_char, b'x');
    w.write_byte(b'y');
    assert_eq!(w.column_position, 1);
    assert_eq!(w.cell(BUFFER_HEIGHT - 1, 0).ascii_char, b'y');
    for col in 0..BUFFER_WIDTH {
        assert_eq!(w.cell(BUFFER_HEIGHT - 2, col).ascii_char, b'x');
    }
}

#[test]
fn eighty_one_printable_bytes_from_a_string_wrap_once() {
    let mut w = fresh();
    let long = "a".repeat(BUFFER_WIDTH + 1);
    w.write_string(&long);
    assert_eq!(w.column_position, 1);
    assert_eq!(w.cell(BUFFER_HEIGHT - 1, 0).ascii_char, b'a');
    assert_eq!(w.cell(BUFFER_HEIGHT - 1, 1).ascii_char, BLANK_BYTE);
    for col in 0..BUFFER_WIDTH {
        assert_eq!(w.cell(BUFFER_HEIGHT - 2, col).ascii_char, b'a');
    }
}

#[test]
fn scrolling_shifts_earlier_lines_upward() {
    let mut w = fresh();
    w.write_string("one\ntwo\nthree");
    assert_eq!(w.cell(BUFFER_HEIGHT - 3, 0).ascii_char, b'o');
    assert_eq!(w.cell(BUFFER_HEIGHT - 3, 1).ascii_char, b'n');
    assert_eq!(w.cell(BUFFER_HEIGHT - 3, 2).ascii_char, b'e');
    assert_eq!(w.cell(BUFFER_HEIGHT - 2, 0).ascii_char, b't');
    assert_eq!(w.cell(BUFFER_HEIGHT - 2, 2).ascii_char, b'o');
    assert_eq!(w.cell(BUFFER_HEIGHT - 1, 0).ascii_char, b't');
    assert_eq!(w.cell(BUFFER_HEIGHT - 1, 4).ascii_char, b'e');
    assert_eq!(w.column_position, 5);
}

#[test]
fn new_line_clears_the_bottom_row_with_the_current_attribute() {
    let mut w = fresh();
    w.write_string("filled");
    w.new_line();
    for col in 0..BUFFER_WIDTH {
        let c = w.cell(BUFFER_HEIGHT - 1, col);
        assert_eq!(c.ascii_char, BLANK_BYTE);
        assert_eq!(c.color_code.0, 0x0E);
    }
    assert_eq!(w.column_position, 0);
}

#[test]
fn print_something_writes_the_greeting() {
    let w = print_something();
    let expected = b"Hello World!";
    for (col, ch) in expected.iter().enumerate() {
        let c = w.cell(BUFFER_HEIGHT - 1, col);
        assert_eq!(c.ascii_char, *ch);
        assert_eq!(c.color_code.0, 0x0E);
    }
    assert_eq!(w.column_position, expected.len());
}
