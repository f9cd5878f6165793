//! The eight standard terminal foreground colours and their escape sequences.

use vstd::prelude::*;
use vstd::string::*;
use vstd::utf8::encode_utf8;
use vstd::utf8::is_ascii_chars_encode_utf8;
use crate::strings::string_with_room;

verus! {

/// A non-bright terminal foreground colour.
#[derive(Clone, Copy, Debug, PartialEq, Eq, Structural)]
pub enum Color {
    BLACK,
    RED,
    GREEN,
    YELLOW,
    BLUE,
    MAGENTA,
    CYAN,
    WHITE,
}

/// Number of characters (and of bytes) in every escape sequence.
pub const ANSII_ESCAPE_LEN: usize = 5;

/// The character that writes the decimal digit `d`.
pub open spec fn decimal_digit(d: nat) -> char
    recommends
        d < 10,
{
    ('0' as nat + d) as char
}

impl Color {
    /// The colour's index in the terminal's non-bright palette.
    pub open spec fn code(self) -> nat {
        match self {
            Color::BLACK => 0,
            Color::RED => 1,
            Color::GREEN => 2,
            Color::YELLOW => 3,
            Color::BLUE => 4,
            Color::MAGENTA => 5,
            Color::CYAN => 6,
            Color::WHITE => 7,
        }
    }

    /// The colour's palette index as a machine integer.
    pub fn int_value(self) -> (value: u8)
        ensures
            value == self.code(),
            value <= 7,
    {
        match self {
            Color::BLACK => 0,
            Color::RED => 1,
            Color::GREEN => 2,
            Color::YELLOW => 3,
            Color::BLUE => 4,
            Color::MAGENTA => 5,
            Color::CYAN => 6,
            Color::WHITE => 7,
        }
    }

    /// The escape sequence that switches the foreground to this colour:
    /// ESC, `[`, `3`, the digit of the palette index, `m`.
    pub open spec fn escape_sequence(self) -> Seq<char> {
        seq!['\u{1b}', '[', '3', decimal_digit(self.code()), 'm']
    }
}

/// Builds the escape sequence of `fg` as a string.
pub fn ansii_escape_str(fg: Color) -> (ret: String)
    ensures
        ret@ == fg.escape_sequence(),
{
    let mut ret = string_with_room(ANSII_ESCAPE_LEN);
    ret.append("\x1b[3");
    let digit: char = (48u8 + fg.int_value()) as char;
    ret.push(digit);
    ret.append("m");
    proof {
        reveal_strlit("\x1b[3");
        reveal_strlit("m");
    }
    ret
}

/// The escape sequences of the eight colours, written out.
pub proof fn lemma_escape_sequence_table(color: Color)
    ensures
        color.escape_sequence().len() == ANSII_ESCAPE_LEN,
        color.escape_sequence() == match color {
            Color::BLACK => "\x1b[30m"@,
            Color::RED => "\x1b[31m"@,
            Color::GREEN => "\x1b[32m"@,
            Color::YELLOW => "\x1b[33m"@,
            Color::BLUE => "\x1b[34m"@,
            Color::MAGENTA => "\x1b[35m"@,
            Color::CYAN => "\x1b[36m"@,
            Color::WHITE => "\x1b[37m"@,
        },
{
    reveal_strlit("\x1b[30m");
    reveal_strlit("\x1b[31m");
    reveal_strlit("\x1b[32m");
    reveal_strlit("\x1b[33m");
    reveal_strlit("\x1b[34m");
    reveal_strlit("\x1b[35m");
    reveal_strlit("\x1b[36m");
    reveal_strlit("\x1b[37m");
    match color {
        Color::BLACK => assert(color.escape_sequence() =~= "\x1b[30m"@),
        Color::RED => assert(color.escape_sequence() =~= "\x1b[31m"@),
        Color::GREEN => assert(color.escape_sequence() =~= "\x1b[32m"@),
        Color::YELLOW => assert(color.escape_sequence() =~= "\x1b[33m"@),
        Color::BLUE => assert(color.escape_sequence() =~= "\x1b[34m"@),
        Color::MAGENTA => assert(color.escape_sequence() =~= "\x1b[35m"@),
        Color::CYAN => assert(color.escape_sequence() =~= "\x1b[36m"@),
        Color::WHITE => assert(color.escape_sequence() =~= "\x1b[37m"@),
    }
}

/// The bytes of an escape sequence in UTF-8: the byte 1B, `[`, `3`, the
/// ASCII digit of the palette index, `m`.
pub proof fn lemma_escape_sequence_bytes(color: Color)
    ensures
        color.code() <= 7,
        encode_utf8(color.escape_sequence()) == seq![
            0x1bu8,
            0x5bu8,
            0x33u8,
            (0x30 + color.code()) as u8,
            0x6du8,
        ],
{
    is_ascii_chars_encode_utf8(color.escape_sequence());
}

} // verus!
