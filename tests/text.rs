use furnace_core::devices::BufferSize;
use furnace_core::text::{change_writer_color, ScreenChar, Writer, REPLACEMENT};

const WHITE_ON_BLACK: u8 = 0x0f;

fn screen() -> Writer {
    Writer::new(BufferSize::new(80, 25), WHITE_ON_BLACK)
}

fn row_text(w: &Writer, y: usize, len: usize) -> String {
    (0..len).map(|x| w.cell(x, y).byte as char).collect()
}

#[test]
fn test_println_simple() {
    let mut w = screen();
    w.write_string(b"test_println_simple output\n");
    assert_eq!(row_text(&w, 23, 26), "test_println_simple output");
    assert_eq!(w.x_pos(), 0);
}

#[test]
fn test_println_many() {
    let mut w = screen();
    for _ in 0..200 {
        w.write_string(b"test_println_many output\n");
    }
    assert_eq!(row_text(&w, 0, 24), "test_println_many output");
    assert_eq!(row_text(&w, 23, 24), "test_println_many output");
    assert_eq!(row_text(&w, 24, 24), " ".repeat(24));
}

#[test]
fn test_println_output() {
    let mut w = screen();
    let s = "Some test string that fits on a single line";
    w.write_string(format!("\n{}\n", s).as_bytes());
    for (i, c) in s.chars().enumerate() {
        assert_eq!(w.cell(i, 23).byte as char, c);
    }
}

#[test]
fn full_row_wraps_on_next_character() {
    let mut w = screen();
    for _ in 0..80 {
        w.write_byte(b'a');
    }
    assert_eq!(w.x_pos(), 80);
    assert_eq!(row_text(&w, 24, 80), "a".repeat(80));
    w.write_byte(b'b');
    assert_eq!(row_text(&w, 23, 80), "a".repeat(80));
    assert_eq!(w.cell(0, 24).byte, b'b');
    assert_eq!(w.x_pos(), 1);
}

#[test]
fn test_clear_screen() {
    let mut w = screen();
    for _ in 0..30 {
        w.write_string(&[b'a'; 80]);
    }
    w.clear_screen();
    for y in 0..25 {
        for x in 0..80 {
            assert_eq!(w.cell(x, y).byte, b' ');
        }
    }
}

#[test]
fn backspace_erases_and_crosses_rows() {
    let mut w = screen();
    w.write_string(b"ab\x08");
    assert_eq!(row_text(&w, 24, 2), "a ");
    assert_eq!(w.x_pos(), 1);
    w.write_string(b"\n");
    w.write_byte(0x08);
    assert_eq!(w.x_pos(), 79);
    assert_eq!(row_text(&w, 24, 1), "a");
    assert_eq!(w.cell(0, 0).byte, b' ');
}

#[test]
fn unprintable_bytes_are_replaced_and_colored() {
    let mut w = screen();
    change_writer_color(&mut w, 0x1e);
    w.write_string(&[0x07, b'x']);
    assert_eq!(w.cell(0, 24), ScreenChar { byte: REPLACEMENT, color: 0x1e });
    assert_eq!(w.cell(1, 24), ScreenChar { byte: b'x', color: 0x1e });
}
