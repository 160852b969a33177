//! The state machine that recognises colour escape sequences in a stream of
//! characters. A sequence is an introducer, then parameters separated by
//! `;`, then `m`. The introducer is the five characters `\x1b[` written
//! out; the escape control character itself is an ordinary character.

use vstd::prelude::*;
use crate::drivers::io::vgat_out::{Color, VgatDisplayStyle};

verus! {

/// The number of characters in the introducer.
pub const INTRODUCER_LEN: usize = 5;

/// The characters of the introducer, `\x1b[` written out.
pub open spec fn introducer() -> Seq<char> {
    seq!['\\', 'x', '1', 'b', '[']
}

/// The `k`-th character of the introducer.
pub fn introducer_char(k: usize) -> (r: char)
    requires
        k < INTRODUCER_LEN,
    ensures
        r == introducer()[k as int],
{
    if k == 0 {
        '\\'
    } else if k == 1 {
        'x'
    } else if k == 2 {
        '1'
    } else if k == 3 {
        'b'
    } else {
        '['
    }
}

/// Whether `c` is an ASCII decimal digit.
pub open spec fn is_digit(c: char) -> bool {
    '0' <= c && c <= '9'
}

/// `c` when `bold` is false, else its bold variant.
pub open spec fn shade(c: Color, bold: bool) -> Color {
    if bold {
        c.bold()
    } else {
        c
    }
}

/// The value that a parameter of four digits or more is held at: it is none
/// of the grammar's.
pub const VALUE_CAP: u32 = 1000;

/// What has been read of a sequence's parameters so far.
#[derive(Clone, Copy, Debug, PartialEq, Eq, Structural)]
pub struct Params {
    /// The value of the parameter being read, held at `VALUE_CAP` once it
    /// has four digits.
    pub value: u32,
    /// Whether the parameter being read has a digit.
    pub digits: bool,
    /// The last digit of the parameter being read.
    pub unit: char,
    /// Whether a bold parameter came earlier in this sequence.
    pub bold: bool,
    /// The style that the sequence sets when it ends.
    pub style: VgatDisplayStyle,
}

impl Params {
    /// Nothing read yet, with `style` as the style in effect.
    pub open spec fn start(style: VgatDisplayStyle) -> Params {
        Params { value: 0, digits: false, unit: '0', bold: false, style: style }
    }

    pub open spec fn wf(self) -> bool {
        self.value <= VALUE_CAP
    }

    /// The digit `c` added to the parameter being read.
    pub open spec fn pushed(self, c: char) -> Params {
        Params {
            value: if self.value < 100 {
                (self.value * 10 + (c as u32 - '0' as u32)) as u32
            } else {
                VALUE_CAP
            },
            digits: true,
            unit: c,
            ..self
        }
    }

    /// The style once the parameter being read is applied: `0` resets, `1`
    /// bolds and `2` dims the foreground, `3x` and `9x` set the foreground and
    /// `4x` and `10x` the background to colour `x`, bolded after a `1`; any
    /// other value, or an empty parameter, changes nothing.
    pub open spec fn applied(self) -> Params {
        let v = self.value;
        let s = self.style;
        let next = if !self.digits {
            self
        } else if v == 0 {
            Params { bold: false, style: VgatDisplayStyle::initial(), ..self }
        } else if v == 1 {
            Params { bold: true, style: VgatDisplayStyle { fg_color: s.fg_color.bold(), ..s }, ..self }
        } else if v == 2 {
            Params { bold: false, style: VgatDisplayStyle { fg_color: s.fg_color.dim(), ..s }, ..self }
        } else if (30 <= v && v <= 39) || (90 <= v && v <= 99) {
            Params {
                style: VgatDisplayStyle { fg_color: shade(Color::ansi(self.unit), self.bold), ..s },
                ..self
            }
        } else if (40 <= v && v <= 49) || (100 <= v && v <= 109) {
            Params {
                style: VgatDisplayStyle { bg_color: shade(Color::ansi(self.unit), self.bold), ..s },
                ..self
            }
        } else {
            self
        };
        Params { value: 0, digits: false, ..next }
    }

    /// Reads a digit into the parameter being read.
    pub fn push(self, c: char) -> (r: Params)
        requires
            self.wf(),
            is_digit(c),
        ensures
            r == self.pushed(c),
            r.wf(),
    {
        let value = if self.value < 100 {
            self.value * 10 + (c as u32 - '0' as u32)
        } else {
            VALUE_CAP
        };
        Params { value: value, digits: true, unit: c, ..self }
    }

    /// Applies the parameter being read to the style, and starts the next.
    pub fn apply(self) -> (r: Params)
        requires
            self.wf(),
        ensures
            r == self.applied(),
            r.wf(),
    {
        let v = self.value;
        let s = self.style;
        let next = if !self.digits {
            self
        } else if v == 0 {
            Params { bold: false, style: VgatDisplayStyle::default(), ..self }
        } else if v == 1 {
            Params {
                bold: true,
                style: VgatDisplayStyle { fg_color: s.fg_color.bold_variant(), ..s },
                ..self
            }
        } else if v == 2 {
            Params {
                bold: false,
                style: VgatDisplayStyle { fg_color: s.fg_color.dim_variant(), ..s },
                ..self
            }
        } else if (30 <= v && v <= 39) || (90 <= v && v <= 99) {
            let c = Color::from_ansi_code(self.unit);
            let c = if self.bold { c.bold_variant() } else { c };
            Params { style: VgatDisplayStyle { fg_color: c, ..s }, ..self }
        } else if (40 <= v && v <= 49) || (100 <= v && v <= 109) {
            let c = Color::from_ansi_code(self.unit);
            let c = if self.bold { c.bold_variant() } else { c };
            Params { style: VgatDisplayStyle { bg_color: c, ..s }, ..self }
        } else {
            self
        };
        Params { value: 0, digits: false, ..next }
    }
}

/// Where the interpreter stands between two characters.
#[derive(Clone, Copy, Debug, PartialEq, Eq, Structural)]
pub enum ParseState {
    /// Outside any sequence.
    Idle,
    /// The first `matched` characters of an introducer have been read and
    /// held back.
    Introducer { matched: usize },
    /// Inside a sequence's parameters.
    InParams(Params),
}

impl ParseState {
    pub open spec fn wf(self) -> bool {
        match self {
            ParseState::Idle => true,
            ParseState::Introducer { matched } => 1 <= matched < INTRODUCER_LEN,
            ParseState::InParams(p) => p.wf(),
        }
    }
}

} // verus!
