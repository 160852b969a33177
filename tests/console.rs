use ferr_os::drivers::io::vgat_out::{
    Color, VgatBuffer, VgatChar, VgatDisplayStyle, VgatOut, DEFAULT_VGA_TEXT_BUFF_HEIGHT,
    DEFAULT_VGA_TEXT_BUFF_WIDTH,
};

const W: usize = DEFAULT_VGA_TEXT_BUFF_WIDTH;
const H: usize = DEFAULT_VGA_TEXT_BUFF_HEIGHT;

fn console() -> VgatOut<W, H> {
    VgatOut::new(VgatBuffer::blank())
}

fn default_style() -> u8 {
    VgatDisplayStyle::default().pack()
}

fn cell(out: &VgatOut<W, H>, row: usize, col: usize) -> VgatChar {
    out.buffer().get(row, col)
}

const ALL_COLORS: [Color; 16] = [
    Color::Black,
    Color::Blue,
    Color::Green,
    Color::Cyan,
    Color::Red,
    Color::Magenta,
    Color::Brown,
    Color::LightGray,
    Color::DarkGray,
    Color::LightBlue,
    Color::LightGreen,
    Color::LightCyan,
    Color::LightRed,
    Color::Pink,
    Color::Yellow,
    Color::White,
];

#[test]
fn bolding_a_dimmed_color_is_bolding_it() {
    for c in ALL_COLORS {
        assert_eq!(c.dim_variant().bold_variant(), c.bold_variant());
    }
}

#[test]
fn dim_and_bold_variants() {
    assert_eq!(Color::LightRed.dim_variant(), Color::Red);
    assert_eq!(Color::Red.dim_variant(), Color::Red);
    assert_eq!(Color::Red.bold_variant(), Color::LightRed);
    assert_eq!(Color::LightRed.bold_variant(), Color::LightRed);
    assert_eq!(Color::Black.bold_variant(), Color::DarkGray);
    assert_eq!(Color::White.dim_variant(), Color::LightGray);
    for (i, c) in ALL_COLORS.iter().enumerate() {
        assert_eq!(c.as_u8() as usize, i);
        assert_eq!(Color::from_u8(i as u8), Some(*c));
    }
    assert_eq!(Color::from_u8(16), None);
}

#[test]
fn ansi_digits_select_colors() {
    assert_eq!(Color::from_ansi_code('0'), Color::Black);
    assert_eq!(Color::from_ansi_code('1'), Color::Red);
    assert_eq!(Color::from_ansi_code('2'), Color::Green);
    assert_eq!(Color::from_ansi_code('3'), Color::Brown);
    assert_eq!(Color::from_ansi_code('4'), Color::Blue);
    assert_eq!(Color::from_ansi_code('5'), Color::Magenta);
    assert_eq!(Color::from_ansi_code('6'), Color::Cyan);
    assert_eq!(Color::from_ansi_code('7'), Color::LightGray);
    assert_eq!(Color::from_ansi_code('8'), Color::White);
    assert_eq!(Color::from_ansi_code('x'), Color::White);
    assert_eq!(Color::default(), Color::White);
}

#[test]
fn style_packs_into_one_byte() {
    assert_eq!(default_style(), 0x0f);
    let s = VgatDisplayStyle { blinking: true, bg_color: Color::Cyan, fg_color: Color::Red };
    assert_eq!(s.pack(), 0x80 | 0x30 | 0x04);
    // The top bit of the background cannot be shown.
    let s = VgatDisplayStyle { blinking: false, bg_color: Color::LightBlue, fg_color: Color::Yellow };
    assert_eq!(s.pack(), 0x10 | 0x0e);
}

#[test]
fn cells_hold_a_byte_and_a_style() {
    let c = VgatChar::new(b'Q', VgatDisplayStyle::default());
    assert_eq!(c, VgatChar { value: b'Q', style: 0x0f });
    assert_eq!(VgatChar::from('A'), VgatChar { value: b'A', style: 0x0f });
    assert_eq!(VgatChar::from('\u{20ac}').value, 0xac);
}

#[test]
fn colors_and_reset_in_text() {
    let mut out = console();
    assert!(out.write_str("A\\x1b[31mB\\x1b[0mC").is_ok());
    assert_eq!(cell(&out, 0, 0), VgatChar { value: b'A', style: 0x0f });
    assert_eq!(cell(&out, 0, 1), VgatChar { value: b'B', style: 0x04 });
    assert_eq!(cell(&out, 0, 2), VgatChar { value: b'C', style: 0x0f });
    assert_eq!(cell(&out, 0, 3), VgatChar { value: 0, style: 0 });
    assert_eq!(out.cursor(), (0, 3));
}

#[test]
fn escape_character_is_an_ordinary_character() {
    let mut out = console();
    assert!(out.write_str("\u{1b}[0m").is_ok());
    let shown = [0x1b, b'[', b'0', b'm'];
    for (col, b) in shown.iter().enumerate() {
        assert_eq!(cell(&out, 0, col), VgatChar { value: *b, style: 0x0f });
    }
    assert_eq!(out.cursor(), (0, 4));
    assert_eq!(out.style(), VgatDisplayStyle::default());
}

#[test]
fn text_split_outside_a_sequence_writes_the_same() {
    let text = "ab\\x1b[31mcd\\x1b[0m\\q\u{1b}e";
    let mut whole = console();
    whole.write_str(text).unwrap();
    for split in [0, 2, 10, 11, 12, 19, 21, 22, text.len()] {
        let mut parts = console();
        parts.write_str(&text[..split]).unwrap();
        parts.write_str(&text[split..]).unwrap();
        assert_eq!(parts.buffer().cells, whole.buffer().cells);
        assert_eq!(parts.cursor(), whole.cursor());
        assert_eq!(parts.style(), whole.style());
    }
}

#[test]
fn eighty_one_characters_wrap_to_the_second_row() {
    let mut out = console();
    let text = "x".repeat(81);
    assert!(out.write_str(&text).is_ok());
    for col in 0..80 {
        assert_eq!(cell(&out, 0, col).value, b'x');
    }
    assert_eq!(cell(&out, 1, 0).value, b'x');
    assert_eq!(cell(&out, 1, 1).value, 0);
    assert_eq!(out.cursor(), (1, 1));
}

#[test]
fn one_row_of_text_moves_down_a_row() {
    let mut out = console();
    out.write_str(&"y".repeat(W)).unwrap();
    assert_eq!(out.cursor(), (1, 0));
    // From the last row, to the first.
    let mut out = console();
    out.write_str(&"\n".repeat(H - 1)).unwrap();
    assert_eq!(out.cursor(), (H - 1, 0));
    out.write_str("ab").unwrap();
    out.write_str(&"z".repeat(W)).unwrap();
    assert_eq!(out.cursor(), (0, 2));
}

#[test]
fn a_grid_of_text_returns_the_cursor() {
    let mut out = console();
    out.write_str("abc").unwrap();
    out.write_str(&"q".repeat(W * H)).unwrap();
    assert_eq!(out.cursor(), (0, 3));
    let mut small: VgatOut<4, 3> = VgatOut::new(VgatBuffer::blank());
    small.write_str(&"k".repeat(12)).unwrap();
    assert_eq!(small.cursor(), (0, 0));
}

#[test]
fn lone_backslash_is_shown() {
    let mut out = console();
    out.write_str("a\\b").unwrap();
    assert_eq!(cell(&out, 0, 0).value, b'a');
    assert_eq!(cell(&out, 0, 1).value, b'\\');
    assert_eq!(cell(&out, 0, 2).value, b'b');
    assert_eq!(out.cursor(), (0, 3));
}

#[test]
fn broken_introducer_is_replayed() {
    let mut out = console();
    out.write_str("\\x1b[31m\\x1Z").unwrap();
    let red = 0x04;
    let shown = [b'\\', b'x', b'1', b'Z'];
    for (col, b) in shown.iter().enumerate() {
        assert_eq!(cell(&out, 0, col), VgatChar { value: *b, style: red });
    }
    assert_eq!(out.cursor(), (0, 4));
}

#[test]
fn held_back_characters_are_shown_at_the_end() {
    let mut out = console();
    out.write_str("ok\\x1").unwrap();
    assert_eq!(out.cursor(), (0, 5));
    assert_eq!(cell(&out, 0, 4).value, b'1');
    let mut out = console();
    out.write_str("\x1b").unwrap();
    assert_eq!(cell(&out, 0, 0).value, 0x1b);
}

#[test]
fn reset_restores_the_default_style() {
    let mut out = console();
    out.write_str("\\x1b[1;34;41m").unwrap();
    assert_eq!(
        out.style(),
        VgatDisplayStyle { blinking: false, bg_color: Color::LightRed, fg_color: Color::LightBlue }
    );
    out.write_str("\\x1b[0m").unwrap();
    assert_eq!(out.style(), VgatDisplayStyle::default());
    out.write_str("\\x1b[32;0m").unwrap();
    assert_eq!(out.style(), VgatDisplayStyle::default());
}

#[test]
fn bold_dim_and_background_parameters() {
    let mut out = console();
    out.write_str("\\x1b[31m").unwrap();
    assert_eq!(out.style().fg_color, Color::Red);
    out.write_str("\\x1b[1m").unwrap();
    assert_eq!(out.style().fg_color, Color::LightRed);
    out.write_str("\\x1b[2m").unwrap();
    assert_eq!(out.style().fg_color, Color::Red);
    out.write_str("\\x1b[42m").unwrap();
    assert_eq!(out.style().bg_color, Color::Green);
    out.write_str("\\x1b[1;42mG").unwrap();
    assert_eq!(out.style().bg_color, Color::LightGreen);
    // The background's top bit is dropped when packed.
    assert_eq!(cell(&out, 0, 0).style, 0x20 | 0x0c);
    out.write_str("\\x1b[94m").unwrap();
    assert_eq!(out.style().fg_color, Color::Blue);
    out.write_str("\\x1b[103m").unwrap();
    assert_eq!(out.style().bg_color, Color::Brown);
}

#[test]
fn unknown_parameters_are_passed_over() {
    let mut out = console();
    out.write_str("\\x1b[5;77;1234;x;mA").unwrap();
    assert_eq!(out.style(), VgatDisplayStyle::default());
    assert_eq!(cell(&out, 0, 0), VgatChar { value: b'A', style: 0x0f });
    assert_eq!(out.cursor(), (0, 1));
}

#[test]
fn unfinished_sequence_is_dropped() {
    let mut out = console();
    out.write_str("A\\x1b[31").unwrap();
    assert_eq!(out.cursor(), (0, 1));
    assert_eq!(out.style(), VgatDisplayStyle::default());
    out.write_str("B").unwrap();
    assert_eq!(cell(&out, 0, 1), VgatChar { value: b'B', style: 0x0f });
}

#[test]
fn style_carries_over_between_writes() {
    let mut out = console();
    out.write_str("\\x1b[32m").unwrap();
    out.write_str("g\n").unwrap();
    out.write_str("h").unwrap();
    assert_eq!(cell(&out, 0, 0).style, 0x02);
    assert_eq!(cell(&out, 1, 0).style, 0x02);
}

#[test]
fn newlines_move_to_the_next_row() {
    let mut out = console();
    out.write_str("ab\ncd").unwrap();
    assert_eq!(cell(&out, 1, 0).value, b'c');
    assert_eq!(cell(&out, 1, 1).value, b'd');
    assert_eq!(out.cursor(), (1, 2));
    out.write_str(&"\n".repeat(H - 1)).unwrap();
    assert_eq!(out.cursor(), (0, 0));
}

#[test]
fn empty_text_changes_nothing() {
    let mut out = console();
    out.write_str("").unwrap();
    assert_eq!(out.cursor(), (0, 0));
    assert_eq!(cell(&out, 0, 0), VgatChar { value: 0, style: 0 });
}

#[test]
fn characters_are_cut_to_their_low_byte() {
    let mut out = console();
    out.write_str("\u{e9}\u{20ac}").unwrap();
    assert_eq!(cell(&out, 0, 0).value, 0xe9);
    assert_eq!(cell(&out, 0, 1).value, 0xac);
    assert_eq!(out.cursor(), (0, 2));
}

#[test]
fn write_char_places_and_advances() {
    let mut out: VgatOut<2, 2> = VgatOut::new(VgatBuffer::blank());
    for b in [b'1', b'2', b'3', b'4', b'5'] {
        out.write_char(VgatChar::new(b, VgatDisplayStyle::default()));
    }
    assert_eq!(out.buffer().get(0, 0).value, b'5');
    assert_eq!(out.buffer().get(0, 1).value, b'2');
    assert_eq!(out.buffer().get(1, 1).value, b'4');
    assert_eq!(out.cursor(), (0, 1));
    let grid = out.into_buffer();
    assert_eq!(grid.cells.len(), 4);
}

#[test]
fn plain_text_wraps_round_the_grid_cell_by_cell() {
    let mut out: VgatOut<4, 2> = VgatOut::new(VgatBuffer::blank());
    out.write_str("\nzz").unwrap();
    assert_eq!(out.cursor(), (1, 2));
    out.write_str("ab\\cd").unwrap();
    let expect = [(1, 2, b'a'), (1, 3, b'b'), (0, 0, b'\\'), (0, 1, b'c'), (0, 2, b'd')];
    for (row, col, b) in expect {
        assert_eq!(out.buffer().get(row, col), VgatChar { value: b, style: 0x0f });
    }
    assert_eq!(out.cursor(), (0, 3));
}
