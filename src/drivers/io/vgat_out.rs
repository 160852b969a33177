//! Colours, cell styles and cells of the VGA text-mode framebuffer.

use vstd::prelude::*;
use crate::drivers::io::ansi::{
    introducer, introducer_char, is_digit, ParseState, Params, INTRODUCER_LEN,
};

verus! {

/// A colour of the 16-entry text-mode palette. Entries 8 to 15 are the bold
/// variants of entries 0 to 7.
#[derive(Clone, Copy, Debug, PartialEq, Eq, Structural)]
pub enum Color {
    Black,
    Blue,
    Green,
    Cyan,
    Red,
    Magenta,
    Brown,
    LightGray,
    DarkGray,
    LightBlue,
    LightGreen,
    LightCyan,
    LightRed,
    Pink,
    Yellow,
    White,
}

impl Color {
    /// The 4-bit hardware value of the colour.
    pub open spec fn code(self) -> nat {
        match self {
            Color::Black => 0,
            Color::Blue => 1,
            Color::Green => 2,
            Color::Cyan => 3,
            Color::Red => 4,
            Color::Magenta => 5,
            Color::Brown => 6,
            Color::LightGray => 7,
            Color::DarkGray => 8,
            Color::LightBlue => 9,
            Color::LightGreen => 10,
            Color::LightCyan => 11,
            Color::LightRed => 12,
            Color::Pink => 13,
            Color::Yellow => 14,
            Color::White => 15,
        }
    }

    /// The colour whose hardware value is `n`, if `n` is one.
    pub open spec fn from_code(n: nat) -> Option<Color> {
        if n == 0 {
            Some(Color::Black)
        } else if n == 1 {
            Some(Color::Blue)
        } else if n == 2 {
            Some(Color::Green)
        } else if n == 3 {
            Some(Color::Cyan)
        } else if n == 4 {
            Some(Color::Red)
        } else if n == 5 {
            Some(Color::Magenta)
        } else if n == 6 {
            Some(Color::Brown)
        } else if n == 7 {
            Some(Color::LightGray)
        } else if n == 8 {
            Some(Color::DarkGray)
        } else if n == 9 {
            Some(Color::LightBlue)
        } else if n == 10 {
            Some(Color::LightGreen)
        } else if n == 11 {
            Some(Color::LightCyan)
        } else if n == 12 {
            Some(Color::LightRed)
        } else if n == 13 {
            Some(Color::Pink)
        } else if n == 14 {
            Some(Color::Yellow)
        } else if n == 15 {
            Some(Color::White)
        } else {
            None
        }
    }

    /// The normal-intensity counterpart: eight less for a bold colour.
    pub open spec fn dim(self) -> Color {
        if self.code() >= 8 {
            Color::from_code((self.code() - 8) as nat).unwrap()
        } else {
            self
        }
    }

    /// The bold counterpart: eight more than the normal-intensity one.
    pub open spec fn bold(self) -> Color {
        Color::from_code(self.dim().code() + 8).unwrap()
    }

    /// The colour that a digit of an 8-colour escape parameter selects.
    pub open spec fn ansi(c: char) -> Color {
        if c == '0' {
            Color::Black
        } else if c == '1' {
            Color::Red
        } else if c == '2' {
            Color::Green
        } else if c == '3' {
            Color::Brown
        } else if c == '4' {
            Color::Blue
        } else if c == '5' {
            Color::Magenta
        } else if c == '6' {
            Color::Cyan
        } else if c == '7' {
            Color::LightGray
        } else {
            Color::White
        }
    }

    /// The hardware value of the colour.
    pub fn as_u8(&self) -> (r: u8)
        ensures
            r as nat == self.code(),
    {
        match self {
            Color::Black => 0,
            Color::Blue => 1,
            Color::Green => 2,
            Color::Cyan => 3,
            Color::Red => 4,
            Color::Magenta => 5,
            Color::Brown => 6,
            Color::LightGray => 7,
            Color::DarkGray => 8,
            Color::LightBlue => 9,
            Color::LightGreen => 10,
            Color::LightCyan => 11,
            Color::LightRed => 12,
            Color::Pink => 13,
            Color::Yellow => 14,
            Color::White => 15,
        }
    }

    /// The colour with hardware value `n`; `None` when `n` is 16 or more.
    pub fn from_u8(n: u8) -> (r: Option<Color>)
        ensures
            r == Color::from_code(n as nat),
            r is Some <==> n < 16,
    {
        match n {
            0 => Some(Color::Black),
            1 => Some(Color::Blue),
            2 => Some(Color::Green),
            3 => Some(Color::Cyan),
            4 => Some(Color::Red),
            5 => Some(Color::Magenta),
            6 => Some(Color::Brown),
            7 => Some(Color::LightGray),
            8 => Some(Color::DarkGray),
            9 => Some(Color::LightBlue),
            10 => Some(Color::LightGreen),
            11 => Some(Color::LightCyan),
            12 => Some(Color::LightRed),
            13 => Some(Color::Pink),
            14 => Some(Color::Yellow),
            15 => Some(Color::White),
            _ => None,
        }
    }

    /// Maps a bold colour to its normal-intensity counterpart; a normal one
    /// is returned as it is.
    pub fn dim_variant(&self) -> (r: Color)
        ensures
            r == self.dim(),
            r.code() == if self.code() >= 8 { self.code() - 8 } else { self.code() as int },
    {
        let n = self.as_u8();
        if n >= 8 {
            match Color::from_u8(n - 8) {
                Some(c) => c,
                None => Color::White,
            }
        } else {
            *self
        }
    }

    /// The bold counterpart of the colour. Bolding twice is bolding once.
    pub fn bold_variant(&self) -> (r: Color)
        ensures
            r == self.bold(),
            r.code() == self.dim().code() + 8,
    {
        let n = self.dim_variant().as_u8();
        match Color::from_u8(n + 8) {
            Some(c) => c,
            None => Color::White,
        }
    }

    /// The colour that an 8-colour escape digit selects: '0' black, '1' red,
    /// '2' green, '3' brown, '4' blue, '5' magenta, '6' cyan, '7' light gray,
    /// and white for anything else.
    pub fn from_ansi_code(ansi_code: char) -> (r: Color)
        ensures
            r == Color::ansi(ansi_code),
    {
        match ansi_code {
            '0' => Color::Black,
            '1' => Color::Red,
            '2' => Color::Green,
            '3' => Color::Brown,
            '4' => Color::Blue,
            '5' => Color::Magenta,
            '6' => Color::Cyan,
            '7' => Color::LightGray,
            _ => Color::White,
        }
    }
}

impl Default for Color {
    fn default() -> (r: Color)
        ensures
            r == Color::White,
    {
        Color::White
    }
}

/// Bolding a dimmed colour gives the colour's own bold variant: bolding is
/// never applied twice.
pub proof fn lemma_bold_of_dim(c: Color)
    ensures
        c.dim().bold() == c.bold(),
{
}

/// How a cell is drawn: blinking or not, a background and a foreground.
#[derive(Clone, Copy, Debug, PartialEq, Eq, Structural)]
pub struct VgatDisplayStyle {
    pub blinking: bool,
    pub bg_color: Color,
    pub fg_color: Color,
}

impl VgatDisplayStyle {
    /// Not blinking, white on black.
    pub open spec fn initial() -> VgatDisplayStyle {
        VgatDisplayStyle { blinking: false, bg_color: Color::Black, fg_color: Color::White }
    }

    /// The attribute byte: bit 7 blink, bits 6 to 4 the background (its top
    /// bit cannot be shown and is dropped), bits 3 to 0 the foreground.
    pub open spec fn packed(self) -> nat {
        (if self.blinking { 128nat } else { 0nat }) + (self.bg_color.code() % 8) * 16
            + self.fg_color.code()
    }

    /// Packs the style into its attribute byte.
    pub fn pack(&self) -> (r: u8)
        ensures
            r as nat == self.packed(),
    {
        let blink: u8 = if self.blinking { 128 } else { 0 };
        blink + (self.bg_color.as_u8() % 8) * 16 + self.fg_color.as_u8()
    }
}

impl Default for VgatDisplayStyle {
    fn default() -> (r: VgatDisplayStyle)
        ensures
            r == VgatDisplayStyle::initial(),
    {
        VgatDisplayStyle { blinking: false, bg_color: Color::Black, fg_color: Color::White }
    }
}

/// The low byte of a character's code point: the single byte that a cell
/// can hold.
pub open spec fn low_byte(c: char) -> u8 {
    ((c as u32) % 256) as u8
}

/// One cell of the text-mode grid: a character byte and an attribute byte.
#[derive(Clone, Copy, Debug, PartialEq, Eq, Structural)]
pub struct VgatChar {
    pub value: u8,
    pub style: u8,
}

impl VgatChar {
    /// A cell showing `value` in `style`.
    pub fn new(value: u8, style: VgatDisplayStyle) -> (r: VgatChar)
        ensures
            r.value == value,
            r.style as nat == style.packed(),
    {
        VgatChar { value: value, style: style.pack() }
    }

    /// A cell showing the low byte of `c` in the initial style.
    pub fn from_char(c: char) -> (r: VgatChar)
        ensures
            r.value == low_byte(c),
            r.style as nat == VgatDisplayStyle::initial().packed(),
    {
        let code: u32 = c as u32;
        VgatChar::new((code % 256) as u8, VgatDisplayStyle::default())
    }
}

impl From<char> for VgatChar {
    fn from(c: char) -> (r: VgatChar) {
        VgatChar::from_char(c)
    }
}

impl vstd::std_specs::convert::FromSpecImpl<char> for VgatChar {
    open spec fn obeys_from_spec() -> bool {
        true
    }

    open spec fn from_spec(c: char) -> VgatChar {
        VgatChar { value: low_byte(c), style: VgatDisplayStyle::initial().packed() as u8 }
    }
}

/// The default width of the text-mode grid, in cells.
pub const DEFAULT_VGA_TEXT_BUFF_WIDTH: usize = 80;

/// The default height of the text-mode grid, in rows.
pub const DEFAULT_VGA_TEXT_BUFF_HEIGHT: usize = 25;

/// A `W` by `H` grid of cells, stored row by row: the cell at row `r`,
/// column `c` is `cells[r * W + c]`.
pub struct VgatBuffer<const W: usize, const H: usize> {
    pub cells: Vec<VgatChar>,
}

impl<const W: usize, const H: usize> VgatBuffer<W, H> {
    pub open spec fn wf(&self) -> bool {
        self.cells@.len() == W * H
    }

    /// A grid whose cells all hold byte 0 with attribute 0.
    pub fn blank() -> (r: VgatBuffer<W, H>)
        requires
            W * H <= usize::MAX,
        ensures
            r.wf(),
            forall|i: int| 0 <= i < W * H ==> r.cells@[i] == (VgatChar { value: 0, style: 0 }),
    {
        let n: usize = W * H;
        let mut cells: Vec<VgatChar> = Vec::new();
        let mut i: usize = 0;
        while i < n
            invariant
                n == W * H,
                i <= n,
                cells@.len() == i,
                forall|j: int| 0 <= j < i ==> cells@[j] == (VgatChar { value: 0, style: 0 }),
            decreases n - i,
        {
            cells.push(VgatChar { value: 0, style: 0 });
            i = i + 1;
        }
        VgatBuffer { cells }
    }

    /// The cell at `row`, `col`.
    pub fn get(&self, row: usize, col: usize) -> (r: VgatChar)
        requires
            self.wf(),
            row < H,
            col < W,
        ensures
            r == self.cells@[row * W + col],
    {
        // The grid's length, a `usize`, bounds the index below.
        let _len = self.cells.len();
        proof {
            lemma_cell_index(row as int, col as int, W as int, H as int);
        }
        self.cells[row * W + col]
    }
}

/// A cell's index in the grid lies in the grid.
pub proof fn lemma_cell_index(row: int, col: int, w: int, h: int)
    requires
        0 <= row < h,
        0 <= col < w,
    ensures
        0 <= row * w + col < w * h,
        row * w <= w * h,
{
    assert(0 <= row * w + col < w * h) by (nonlinear_arith)
        requires
            0 <= row < h,
            0 <= col < w,
    ;
    assert(row * w <= w * h) by (nonlinear_arith)
        requires
            0 <= row < h,
            0 <= col < w,
    ;
}

/// What a console shows and where it stands: the grid's cells, the cursor
/// and the style in effect.
pub struct Screen {
    pub cells: Seq<VgatChar>,
    pub row: nat,
    pub col: nat,
    pub style: VgatDisplayStyle,
}

impl Screen {
    /// `ch` placed at the cursor, and the cursor moved one cell on, to the
    /// start of the next row (the first after the last) past the last column.
    pub open spec fn placed(self, w: nat, h: nat, ch: VgatChar) -> Screen {
        let cells = self.cells.update((self.row * w + self.col) as int, ch);
        if self.col + 1 >= w {
            Screen { cells: cells, row: ((self.row + 1) % h) as nat, col: 0, style: self.style }
        } else {
            Screen { cells: cells, row: self.row, col: self.col + 1, style: self.style }
        }
    }

    /// The cursor moved to the start of the next row.
    pub open spec fn fed(self, h: nat) -> Screen {
        Screen { cells: self.cells, row: ((self.row + 1) % h) as nat, col: 0, style: self.style }
    }

    /// The low byte of `c` placed in the style in effect.
    pub open spec fn shown(self, w: nat, h: nat, c: char) -> Screen {
        self.placed(w, h, VgatChar { value: low_byte(c), style: self.style.packed() as u8 })
    }

    /// Each of `cs` shown in turn.
    pub open spec fn shown_all(self, w: nat, h: nat, cs: Seq<char>) -> Screen
        decreases cs.len(),
    {
        if cs.len() == 0 {
            self
        } else {
            self.shown_all(w, h, cs.drop_last()).shown(w, h, cs.last())
        }
    }

    /// `c` read outside any sequence: a newline moves to the next row, the
    /// first character of an introducer is held back, anything else is shown.
    pub open spec fn after_idle(self, w: nat, h: nat, c: char) -> (Screen, ParseState) {
        if c == '\n' {
            (self.fed(h), ParseState::Idle)
        } else if c == '\\' {
            (self, ParseState::Introducer { matched: 1 })
        } else {
            (self.shown(w, h, c), ParseState::Idle)
        }
    }

    /// `c` read in state `p`. Inside an introducer, a character that goes on
    /// with it is held back; one that does not first releases the held-back
    /// characters, shown as they are, and is then read outside any sequence.
    /// Inside the parameters a newline still moves to the next row, digits
    /// and `;` build the parameters, `m` ends the sequence and sets its style,
    /// and anything else is passed over.
    pub open spec fn after(self, w: nat, h: nat, p: ParseState, c: char) -> (Screen, ParseState) {
        match p {
            ParseState::Idle => self.after_idle(w, h, c),
            ParseState::Introducer { matched } => {
                let intro = introducer();
                if c == intro[matched as int] {
                    if matched + 1 == intro.len() {
                        (self, ParseState::InParams(Params::start(self.style)))
                    } else {
                        (self, ParseState::Introducer { matched: (matched + 1) as usize })
                    }
                } else {
                    self.shown_all(w, h, intro.take(matched as int)).after_idle(w, h, c)
                }
            },
            ParseState::InParams(q) => {
                if c == '\n' {
                    (self.fed(h), p)
                } else if c == 'm' {
                    (
                        Screen {
                            cells: self.cells,
                            row: self.row,
                            col: self.col,
                            style: q.applied().style,
                        },
                        ParseState::Idle,
                    )
                } else if c == ';' {
                    (self, ParseState::InParams(q.applied()))
                } else if is_digit(c) {
                    (self, ParseState::InParams(q.pushed(c)))
                } else {
                    (self, p)
                }
            },
        }
    }

    /// Each of `cs` read in turn, from state `p`.
    pub open spec fn after_all(self, w: nat, h: nat, p: ParseState, cs: Seq<char>) -> (
        Screen,
        ParseState,
    )
        decreases cs.len(),
    {
        if cs.len() == 0 {
            (self, p)
        } else {
            let (s, q) = self.after_all(w, h, p, cs.drop_last());
            s.after(w, h, q, cs.last())
        }
    }

    /// The end of the text in state `p`: held-back introducer characters are
    /// shown; the parameters of an unfinished sequence are dropped.
    pub open spec fn flushed(self, w: nat, h: nat, p: ParseState) -> Screen {
        match p {
            ParseState::Introducer { matched } => self.shown_all(
                w,
                h,
                introducer().take(matched as int),
            ),
            _ => self,
        }
    }

    /// The screen once the text `cs` has been written.
    pub open spec fn written(self, w: nat, h: nat, cs: Seq<char>) -> Screen {
        let (s, p) = self.after_all(w, h, ParseState::Idle, cs);
        s.flushed(w, h, p)
    }

    /// The cursor lies in a `w` by `h` grid whose cells are all there.
    pub open spec fn fits(self, w: nat, h: nat) -> bool {
        &&& self.cells.len() == w * h
        &&& self.row < h
        &&& self.col < w
    }
}

/// A console over a `W` by `H` text-mode grid: it owns the grid, keeps a
/// cursor and the style in effect, and interprets colour escape sequences
/// in the text written to it.
pub struct VgatOut<const W: usize, const H: usize> {
    char_buffer: VgatBuffer<W, H>,
    head_pos: (usize, usize),
    color_state: VgatDisplayStyle,
}

impl<const W: usize, const H: usize> View for VgatOut<W, H> {
    type V = Screen;

    closed spec fn view(&self) -> Screen {
        Screen {
            cells: self.char_buffer.cells@,
            row: self.head_pos.0 as nat,
            col: self.head_pos.1 as nat,
            style: self.color_state,
        }
    }
}

impl<const W: usize, const H: usize> VgatOut<W, H> {
    pub open spec fn wf(&self) -> bool {
        self@.fits(W as nat, H as nat)
    }

    /// A console over `buffer`, with the cursor at the top left and the
    /// initial style.
    pub fn new(buffer: VgatBuffer<W, H>) -> (r: VgatOut<W, H>)
        requires
            W > 0,
            H > 0,
            buffer.wf(),
        ensures
            r.wf(),
            r@ == (Screen {
                cells: buffer.cells@,
                row: 0,
                col: 0,
                style: VgatDisplayStyle::initial(),
            }),
    {
        VgatOut { char_buffer: buffer, head_pos: (0, 0), color_state: VgatDisplayStyle::default() }
    }

    /// The grid.
    pub fn buffer(&self) -> (r: &VgatBuffer<W, H>)
        ensures
            r.cells@ == self@.cells,
    {
        &self.char_buffer
    }

    /// The grid, given up by the console.
    pub fn into_buffer(self) -> (r: VgatBuffer<W, H>)
        ensures
            r.cells@ == self@.cells,
    {
        self.char_buffer
    }

    /// The cursor: row, then column.
    pub fn cursor(&self) -> (r: (usize, usize))
        ensures
            r.0 == self@.row,
            r.1 == self@.col,
    {
        self.head_pos
    }

    /// The style in effect.
    pub fn style(&self) -> (r: VgatDisplayStyle)
        ensures
            r == self@.style,
    {
        self.color_state
    }

    /// Places `c` at the cursor and moves the cursor one cell on, to the
    /// start of the next row past the last column, and to the first row past
    /// the last.
    pub fn write_char(&mut self, c: VgatChar)
        requires
            old(self).wf(),
        ensures
            final(self).wf(),
            final(self)@ == old(self)@.placed(W as nat, H as nat, c),
    {
        let (row, col) = self.head_pos;
        // The grid's length, a `usize`, bounds the index below.
        let _len = self.char_buffer.cells.len();
        proof {
            lemma_cell_index(row as int, col as int, W as int, H as int);
        }
        self.char_buffer.cells.set(row * W + col, c);
        self.head_pos = (row, col + 1);
        if col + 1 >= W {
            self.advance_print_feed();
        }
    }

    /// Moves the cursor to the start of the next row, the first after the
    /// last.
    fn advance_print_feed(&mut self)
        requires
            H > 0,
            old(self).head_pos.0 < H,
        ensures
            final(self)@ == old(self)@.fed(H as nat),
            final(self).head_pos.0 < H,
    {
        let row = self.head_pos.0;
        self.head_pos = ((row + 1) % H, 0);
    }

    /// Shows the low byte of `c` at the cursor in the style in effect.
    fn show(&mut self, c: char)
        requires
            old(self).wf(),
        ensures
            final(self).wf(),
            final(self)@ == old(self)@.shown(W as nat, H as nat, c),
    {
        let code: u32 = c as u32;
        let cell = VgatChar { value: (code % 256) as u8, style: self.color_state.pack() };
        self.write_char(cell);
    }

    /// Shows the first `matched` characters of an introducer.
    fn release(&mut self, matched: usize)
        requires
            old(self).wf(),
            matched <= INTRODUCER_LEN,
        ensures
            final(self).wf(),
            final(self)@ == old(self)@.shown_all(
                W as nat,
                H as nat,
                introducer().take(matched as int),
            ),
    {
        let ghost start = self@;
        let ghost intro = introducer();
        let mut j: usize = 0;
        while j < matched
            invariant
                self.wf(),
                j <= matched <= intro.len(),
                intro == introducer(),
                self@ == start.shown_all(W as nat, H as nat, intro.take(j as int)),
            decreases matched - j,
        {
            let c = introducer_char(j);
            proof {
                assert(intro.take(j + 1).drop_last() =~= intro.take(j as int));
            }
            self.show(c);
            j = j + 1;
        }
    }

    /// Reads `c` outside any sequence.
    fn read_idle(&mut self, c: char) -> (r: ParseState)
        requires
            old(self).wf(),
        ensures
            final(self).wf(),
            r.wf(),
            (final(self)@, r) == old(self)@.after_idle(W as nat, H as nat, c),
    {
        if c == '\n' {
            self.advance_print_feed();
            ParseState::Idle
        } else if c == '\\' {
            ParseState::Introducer { matched: 1 }
        } else {
            self.show(c);
            ParseState::Idle
        }
    }

    /// Reads `c` in state `state` and returns the next state: one step of
    /// the escape-sequence interpreter, with what it shows placed on the
    /// grid and the style that a finished sequence sets adopted.
    pub fn adopt_ansi(&mut self, state: ParseState, c: char) -> (r: ParseState)
        requires
            old(self).wf(),
            state.wf(),
        ensures
            final(self).wf(),
            r.wf(),
            (final(self)@, r) == old(self)@.after(W as nat, H as nat, state, c),
    {
        match state {
            ParseState::Idle => self.read_idle(c),
            ParseState::Introducer { matched } => {
                if c == introducer_char(matched) {
                    if matched + 1 == INTRODUCER_LEN {
                        ParseState::InParams(
                            Params {
                                value: 0,
                                digits: false,
                                unit: '0',
                                bold: false,
                                style: self.color_state,
                            },
                        )
                    } else {
                        ParseState::Introducer { matched: matched + 1 }
                    }
                } else {
                    self.release(matched);
                    self.read_idle(c)
                }
            },
            ParseState::InParams(q) => {
                if c == '\n' {
                    self.advance_print_feed();
                    state
                } else if c == 'm' {
                    self.color_state = q.apply().style;
                    ParseState::Idle
                } else if c == ';' {
                    ParseState::InParams(q.apply())
                } else if '0' <= c && c <= '9' {
                    ParseState::InParams(q.push(c))
                } else {
                    state
                }
            },
        }
    }

    /// Ends the text in state `state`: held-back introducer characters are
    /// shown, an unfinished sequence is dropped.
    fn flush(&mut self, state: ParseState)
        requires
            old(self).wf(),
            state.wf(),
        ensures
            final(self).wf(),
            final(self)@ == old(self)@.flushed(W as nat, H as nat, state),
    {
        if let ParseState::Introducer { matched } = state {
            self.release(matched);
        }
    }

    /// Writes `s`: each character is read by the escape-sequence
    /// interpreter, newlines move to the next row, the text of a sequence
    /// is not shown and sets the style, and everything else is shown in the
    /// style in effect. Held-back characters that do not make an introducer
    /// are shown as they are. Always succeeds.
    pub fn write_str(&mut self, s: &str) -> (r: Result<(), core::fmt::Error>)
        requires
            old(self).wf(),
        ensures
            final(self).wf(),
            final(self)@ == old(self)@.written(W as nat, H as nat, s@),
            r is Ok,
    {
        let ghost start = self@;
        let n = s.unicode_len();
        let mut state = ParseState::Idle;
        let mut i: usize = 0;
        while i < n
            invariant
                self.wf(),
                state.wf(),
                n == s@.len(),
                i <= n,
                (self@, state) == start.after_all(
                    W as nat,
                    H as nat,
                    ParseState::Idle,
                    s@.take(i as int),
                ),
            decreases n - i,
        {
            let c = s.get_char(i);
            proof {
                assert(s@.take(i + 1).drop_last() =~= s@.take(i as int));
            }
            state = self.adopt_ansi(state, c);
            i = i + 1;
        }
        proof {
            assert(s@.take(n as int) =~= s@);
        }
        self.flush(state);
        Ok(())
    }
}

} // verus!
