//! Software diagnostic frames: a visible XRGB8888 error screen with a 5x7
//! block font, drawn on the CPU instead of a black frame.

use crate::text::{lemma_split_whitespace_nonempty, lines, spec_is_whitespace, spec_lines, spec_lines_state, spec_split_whitespace, spec_split_whitespace_state, spec_strip_cr, split_whitespace, str_chars, string_from_chars};
use vstd::slice::{slice_subrange, slice_to_vec};
use vstd::string::StrSliceExecFns;
use vstd::arithmetic::div_mod::{lemma_fundamental_div_mod_converse};
use vstd::prelude::*;

verus! {

pub const XRGB_SOFTWARE_BG_TOP: u32 = 0x0010_1824;
pub const XRGB_SOFTWARE_BG_BOTTOM: u32 = 0x0026_2A18;
pub const XRGB_SOFTWARE_TEXT: u32 = 0x00FF_E85A;
pub const XRGB_SOFTWARE_DIM_TEXT: u32 = 0x0098_D8FF;
pub const XRGB_SOFTWARE_BORDER: u32 = 0x00E0_5A2A;
pub const XRGB_SOFTWARE_BAR: u32 = 0x0047_D16C;
/// At most this many characters of a message are shown.
pub const DIAGNOSTIC_MAX_CHARS: usize = 320;

/// The upper-case form of an ASCII letter; other characters are unchanged.
pub open spec fn spec_ascii_upper(c: char) -> char {
    if 'a' <= c <= 'z' {
        ((c as u32) - 32) as char
    } else {
        c
    }
}

/// Whether the block font draws `c` (after upper-casing).
pub open spec fn spec_is_glyph_char(c: char) -> bool {
    ||| 'A' <= c <= 'Z'
    ||| '0' <= c <= '9'
    ||| c == ' ' || c == '-' || c == ':' || c == '.' || c == '/' || c == '_'
    ||| c == '(' || c == ')' || c == ',' || c == '\'' || c == '=' || c == '?' || c == '!'
}

/// The character the block font shows for `c`: its upper-case form if the
/// font has it, `?` otherwise.
pub open spec fn spec_diagnostic_character(c: char) -> char {
    let upper = spec_ascii_upper(c);
    if spec_is_glyph_char(upper) {
        upper
    } else {
        '?'
    }
}

/// Maps a character to the one the block font shows for it.
pub fn diagnostic_character(character: char) -> (shown: char)
    ensures
        shown == spec_diagnostic_character(character),
{
    let upper = if 'a' <= character && character <= 'z' {
        ((character as u8) - 32) as char
    } else {
        character
    };
    let drawable = ('A' <= upper && upper <= 'Z') || ('0' <= upper && upper <= '9') || upper == ' '
        || upper == '-' || upper == ':' || upper == '.' || upper == '/' || upper == '_' || upper
        == '(' || upper == ')' || upper == ',' || upper == '\'' || upper == '=' || upper == '?'
        || upper == '!';
    if drawable {
        upper
    } else {
        '?'
    }
}

/// The 5x7 bitmap of a diagnostic glyph, one byte per row, most significant
/// of the low five bits leftmost; characters without a glyph are blank.
pub open spec fn spec_glyph_rows(character: char) -> Seq<u8> {
    match character {
        'A' => seq![0b01110u8, 0b10001, 0b10001, 0b11111, 0b10001, 0b10001, 0b10001],
        'B' => seq![0b11110u8, 0b10001, 0b10001, 0b11110, 0b10001, 0b10001, 0b11110],
        'C' => seq![0b01110u8, 0b10001, 0b10000, 0b10000, 0b10000, 0b10001, 0b01110],
        'D' => seq![0b11110u8, 0b10001, 0b10001, 0b10001, 0b10001, 0b10001, 0b11110],
        'E' => seq![0b11111u8, 0b10000, 0b10000, 0b11110, 0b10000, 0b10000, 0b11111],
        'F' => seq![0b11111u8, 0b10000, 0b10000, 0b11110, 0b10000, 0b10000, 0b10000],
        'G' => seq![0b01110u8, 0b10001, 0b10000, 0b10111, 0b10001, 0b10001, 0b01110],
        'H' => seq![0b10001u8, 0b10001, 0b10001, 0b11111, 0b10001, 0b10001, 0b10001],
        'I' => seq![0b01110u8, 0b00100, 0b00100, 0b00100, 0b00100, 0b00100, 0b01110],
        'J' => seq![0b00111u8, 0b00010, 0b00010, 0b00010, 0b10010, 0b10010, 0b01100],
        'K' => seq![0b10001u8, 0b10010, 0b10100, 0b11000, 0b10100, 0b10010, 0b10001],
        'L' => seq![0b10000u8, 0b10000, 0b10000, 0b10000, 0b10000, 0b10000, 0b11111],
        'M' => seq![0b10001u8, 0b11011, 0b10101, 0b10101, 0b10001, 0b10001, 0b10001],
        'N' => seq![0b10001u8, 0b11001, 0b10101, 0b10011, 0b10001, 0b10001, 0b10001],
        'O' => seq![0b01110u8, 0b10001, 0b10001, 0b10001, 0b10001, 0b10001, 0b01110],
        'P' => seq![0b11110u8, 0b10001, 0b10001, 0b11110, 0b10000, 0b10000, 0b10000],
        'Q' => seq![0b01110u8, 0b10001, 0b10001, 0b10001, 0b10101, 0b10010, 0b01101],
        'R' => seq![0b11110u8, 0b10001, 0b10001, 0b11110, 0b10100, 0b10010, 0b10001],
        'S' => seq![0b01111u8, 0b10000, 0b10000, 0b01110, 0b00001, 0b00001, 0b11110],
        'T' => seq![0b11111u8, 0b00100, 0b00100, 0b00100, 0b00100, 0b00100, 0b00100],
        'U' => seq![0b10001u8, 0b10001, 0b10001, 0b10001, 0b10001, 0b10001, 0b01110],
        'V' => seq![0b10001u8, 0b10001, 0b10001, 0b10001, 0b10001, 0b01010, 0b00100],
        'W' => seq![0b10001u8, 0b10001, 0b10001, 0b10101, 0b10101, 0b10101, 0b01010],
        'X' => seq![0b10001u8, 0b10001, 0b01010, 0b00100, 0b01010, 0b10001, 0b10001],
        'Y' => seq![0b10001u8, 0b10001, 0b01010, 0b00100, 0b00100, 0b00100, 0b00100],
        'Z' => seq![0b11111u8, 0b00001, 0b00010, 0b00100, 0b01000, 0b10000, 0b11111],
        '0' => seq![0b01110u8, 0b10001, 0b10011, 0b10101, 0b11001, 0b10001, 0b01110],
        '1' => seq![0b00100u8, 0b01100, 0b00100, 0b00100, 0b00100, 0b00100, 0b01110],
        '2' => seq![0b01110u8, 0b10001, 0b00001, 0b00010, 0b00100, 0b01000, 0b11111],
        '3' => seq![0b11110u8, 0b00001, 0b00001, 0b01110, 0b00001, 0b00001, 0b11110],
        '4' => seq![0b00010u8, 0b00110, 0b01010, 0b10010, 0b11111, 0b00010, 0b00010],
        '5' => seq![0b11111u8, 0b10000, 0b11110, 0b00001, 0b00001, 0b10001, 0b01110],
        '6' => seq![0b00110u8, 0b01000, 0b10000, 0b11110, 0b10001, 0b10001, 0b01110],
        '7' => seq![0b11111u8, 0b00001, 0b00010, 0b00100, 0b01000, 0b01000, 0b01000],
        '8' => seq![0b01110u8, 0b10001, 0b10001, 0b01110, 0b10001, 0b10001, 0b01110],
        '9' => seq![0b01110u8, 0b10001, 0b10001, 0b01111, 0b00001, 0b00010, 0b01100],
        '-' => seq![0b00000u8, 0b00000, 0b00000, 0b11111, 0b00000, 0b00000, 0b00000],
        ':' => seq![0b00000u8, 0b00100, 0b00100, 0b00000, 0b00100, 0b00100, 0b00000],
        '.' => seq![0b00000u8, 0b00000, 0b00000, 0b00000, 0b00000, 0b00100, 0b00100],
        '/' => seq![0b00001u8, 0b00010, 0b00010, 0b00100, 0b01000, 0b01000, 0b10000],
        '_' => seq![0b00000u8, 0b00000, 0b00000, 0b00000, 0b00000, 0b00000, 0b11111],
        '(' => seq![0b00010u8, 0b00100, 0b01000, 0b01000, 0b01000, 0b00100, 0b00010],
        ')' => seq![0b01000u8, 0b00100, 0b00010, 0b00010, 0b00010, 0b00100, 0b01000],
        ',' => seq![0b00000u8, 0b00000, 0b00000, 0b00000, 0b00100, 0b00100, 0b01000],
        '\'' => seq![0b00100u8, 0b00100, 0b01000, 0b00000, 0b00000, 0b00000, 0b00000],
        '=' => seq![0b00000u8, 0b00000, 0b11111, 0b00000, 0b11111, 0b00000, 0b00000],
        '?' => seq![0b01110u8, 0b10001, 0b00001, 0b00010, 0b00100, 0b00000, 0b00100],
        '!' => seq![0b00100u8, 0b00100, 0b00100, 0b00100, 0b00100, 0b00000, 0b00100],
        _ => seq![0u8, 0, 0, 0, 0, 0, 0],
    }
}

/// The cells of a glyph bitmap as one number, five bits per row.
pub open spec fn spec_glyph_code(rows: Seq<u8>) -> int {
    rows[0] + 32 * (rows[1] + 32 * (rows[2] + 32 * (rows[3] + 32 * (rows[4] + 32 * (rows[5] + 32
        * rows[6])))))
}

/// The drawable character whose bitmap has the given cell number; the space
/// for an empty bitmap.
spec fn spec_glyph_char_of_code(code: int) -> char {
    if code == 0 {
        ' '
    } else if code == 18842895918 {
        'A'
    } else if code == 32801506878 {
        'B'
    } else if code == 15620129326 {
        'C'
    } else if code == 32801080894 {
        'D'
    } else if code == 33840644639 {
        'E'
    } else if code == 17734517279 {
        'F'
    } else if code == 15621407278 {
        'G'
    } else if code == 18842895921 {
        'H'
    } else if code == 15170932878 {
        'I'
    } else if code == 13507823687 {
        'J'
    } else if code == 18879369809 {
        'K'
    } else if code == 33840185872 {
        'L'
    } else if code == 18842572657 {
        'M'
    } else if code == 18842507057 {
        'N'
    } else if code == 15621211694 {
        'O'
    } else if code == 17734518334 {
        'P'
    } else if code == 14585218606 {
        'Q'
    } else if code == 18879563326 {
        'R'
    } else if code == 32247333391 {
        'S'
    } else if code == 4433514655 {
        'T'
    } else if code == 15621211697 {
        'U'
    } else if code == 4648912433 {
        'V'
    } else if code == 11464787505 {
        'W'
    } else if code == 18834663985 {
        'X'
    } else if code == 4433521201 {
        'Y'
    } else if code == 33831389247 {
        'Z'
    } else if code == 15629733422 {
        '0'
    } else if code == 15170933124 {
        '1'
    } else if code == 33558693422 {
        '2'
    } else if code == 32247317566 {
        '3'
    } else if code == 2247698626 {
        '4'
    } else if code == 15603923487 {
        '5'
    } else if code == 15621636358 {
        '6'
    } else if code == 8866891839 {
        '7'
    } else if code == 15621113390 {
        '8'
    } else if code == 12953568814 {
        '9'
    } else if code == 1015808 {
        '-'
    } else if code == 138416256 {
        ':'
    } else if code == 4429185024 {
        '.'
    } else if code == 17456826433 {
        '/'
    } else if code == 33285996544 {
        '_'
    } else if code == 2290360450 {
        '('
    } else if code == 8726317192 {
        ')'
    } else if code == 8728346624 {
        ','
    } else if code == 8324 {
        '\''
    } else if code == 32537600 {
        '='
    } else if code == 4299228718 {
        '?'
    } else if code == 4299296900 {
        '!'
    } else {
        '\0'
    }
}

proof fn lemma_glyph_code_decodes(c: char)
    requires
        spec_is_glyph_char(c),
    ensures
        spec_glyph_char_of_code(spec_glyph_code(spec_glyph_rows(c))) == c,
        c != ' ' ==> spec_glyph_code(spec_glyph_rows(c)) != 0,
{
    if c == ' ' {
        assert(spec_glyph_char_of_code(spec_glyph_code(spec_glyph_rows(' '))) == ' ');
    } else if c == 'A' {
        assert(spec_glyph_char_of_code(spec_glyph_code(spec_glyph_rows('A'))) == 'A');
    } else if c == 'B' {
        assert(spec_glyph_char_of_code(spec_glyph_code(spec_glyph_rows('B'))) == 'B');
    } else if c == 'C' {
        assert(spec_glyph_char_of_code(spec_glyph_code(spec_glyph_rows('C'))) == 'C');
    } else if c == 'D' {
        assert(spec_glyph_char_of_code(spec_glyph_code(spec_glyph_rows('D'))) == 'D');
    } else if c == 'E' {
        assert(spec_glyph_char_of_code(spec_glyph_code(spec_glyph_rows('E'))) == 'E');
    } else if c == 'F' {
        assert(spec_glyph_char_of_code(spec_glyph_code(spec_glyph_rows('F'))) == 'F');
    } else if c == 'G' {
        assert(spec_glyph_char_of_code(spec_glyph_code(spec_glyph_rows('G'))) == 'G');
    } else if c == 'H' {
        assert(spec_glyph_char_of_code(spec_glyph_code(spec_glyph_rows('H'))) == 'H');
    } else if c == 'I' {
        assert(spec_glyph_char_of_code(spec_glyph_code(spec_glyph_rows('I'))) == 'I');
    } else if c == 'J' {
        assert(spec_glyph_char_of_code(spec_glyph_code(spec_glyph_rows('J'))) == 'J');
    } else if c == 'K' {
        assert(spec_glyph_char_of_code(spec_glyph_code(spec_glyph_rows('K'))) == 'K');
    } else if c == 'L' {
        assert(spec_glyph_char_of_code(spec_glyph_code(spec_glyph_rows('L'))) == 'L');
    } else if c == 'M' {
        assert(spec_glyph_char_of_code(spec_glyph_code(spec_glyph_rows('M'))) == 'M');
    } else if c == 'N' {
        assert(spec_glyph_char_of_code(spec_glyph_code(spec_glyph_rows('N'))) == 'N');
    } else if c == 'O' {
        assert(spec_glyph_char_of_code(spec_glyph_code(spec_glyph_rows('O'))) == 'O');
    } else if c == 'P' {
        assert(spec_glyph_char_of_code(spec_glyph_code(spec_glyph_rows('P'))) == 'P');
    } else if c == 'Q' {
        assert(spec_glyph_char_of_code(spec_glyph_code(spec_glyph_rows('Q'))) == 'Q');
    } else if c == 'R' {
        assert(spec_glyph_char_of_code(spec_glyph_code(spec_glyph_rows('R'))) == 'R');
    } else if c == 'S' {
        assert(spec_glyph_char_of_code(spec_glyph_code(spec_glyph_rows('S'))) == 'S');
    } else if c == 'T' {
        assert(spec_glyph_char_of_code(spec_glyph_code(spec_glyph_rows('T'))) == 'T');
    } else if c == 'U' {
        assert(spec_glyph_char_of_code(spec_glyph_code(spec_glyph_rows('U'))) == 'U');
    } else if c == 'V' {
        assert(spec_glyph_char_of_code(spec_glyph_code(spec_glyph_rows('V'))) == 'V');
    } else if c == 'W' {
        assert(spec_glyph_char_of_code(spec_glyph_code(spec_glyph_rows('W'))) == 'W');
    } else if c == 'X' {
        assert(spec_glyph_char_of_code(spec_glyph_code(spec_glyph_rows('X'))) == 'X');
    } else if c == 'Y' {
        assert(spec_glyph_char_of_code(spec_glyph_code(spec_glyph_rows('Y'))) == 'Y');
    } else if c == 'Z' {
        assert(spec_glyph_char_of_code(spec_glyph_code(spec_glyph_rows('Z'))) == 'Z');
    } else if c == '0' {
        assert(spec_glyph_char_of_code(spec_glyph_code(spec_glyph_rows('0'))) == '0');
    } else if c == '1' {
        assert(spec_glyph_char_of_code(spec_glyph_code(spec_glyph_rows('1'))) == '1');
    } else if c == '2' {
        assert(spec_glyph_char_of_code(spec_glyph_code(spec_glyph_rows('2'))) == '2');
    } else if c == '3' {
        assert(spec_glyph_char_of_code(spec_glyph_code(spec_glyph_rows('3'))) == '3');
    } else if c == '4' {
        assert(spec_glyph_char_of_code(spec_glyph_code(spec_glyph_rows('4'))) == '4');
    } else if c == '5' {
        assert(spec_glyph_char_of_code(spec_glyph_code(spec_glyph_rows('5'))) == '5');
    } else if c == '6' {
        assert(spec_glyph_char_of_code(spec_glyph_code(spec_glyph_rows('6'))) == '6');
    } else if c == '7' {
        assert(spec_glyph_char_of_code(spec_glyph_code(spec_glyph_rows('7'))) == '7');
    } else if c == '8' {
        assert(spec_glyph_char_of_code(spec_glyph_code(spec_glyph_rows('8'))) == '8');
    } else if c == '9' {
        assert(spec_glyph_char_of_code(spec_glyph_code(spec_glyph_rows('9'))) == '9');
    } else if c == '-' {
        assert(spec_glyph_char_of_code(spec_glyph_code(spec_glyph_rows('-'))) == '-');
    } else if c == ':' {
        assert(spec_glyph_char_of_code(spec_glyph_code(spec_glyph_rows(':'))) == ':');
    } else if c == '.' {
        assert(spec_glyph_char_of_code(spec_glyph_code(spec_glyph_rows('.'))) == '.');
    } else if c == '/' {
        assert(spec_glyph_char_of_code(spec_glyph_code(spec_glyph_rows('/'))) == '/');
    } else if c == '_' {
        assert(spec_glyph_char_of_code(spec_glyph_code(spec_glyph_rows('_'))) == '_');
    } else if c == '(' {
        assert(spec_glyph_char_of_code(spec_glyph_code(spec_glyph_rows('('))) == '(');
    } else if c == ')' {
        assert(spec_glyph_char_of_code(spec_glyph_code(spec_glyph_rows(')'))) == ')');
    } else if c == ',' {
        assert(spec_glyph_char_of_code(spec_glyph_code(spec_glyph_rows(','))) == ',');
    } else if c == '\'' {
        assert(spec_glyph_char_of_code(spec_glyph_code(spec_glyph_rows('\''))) == '\'');
    } else if c == '=' {
        assert(spec_glyph_char_of_code(spec_glyph_code(spec_glyph_rows('='))) == '=');
    } else if c == '?' {
        assert(spec_glyph_char_of_code(spec_glyph_code(spec_glyph_rows('?'))) == '?');
    } else if c == '!' {
        assert(spec_glyph_char_of_code(spec_glyph_code(spec_glyph_rows('!'))) == '!');
    } else {
        assert(false);
    }
}

/// The block font tells its characters apart: two different drawable
/// characters have different bitmaps, and every drawable character but the
/// space lights at least one cell.
pub proof fn lemma_glyphs_distinct(c1: char, c2: char)
    requires
        spec_is_glyph_char(c1),
        spec_is_glyph_char(c2),
    ensures
        c1 != c2 ==> spec_glyph_rows(c1) != spec_glyph_rows(c2),
        c1 != ' ' ==> exists|k: int| 0 <= k < 7 && #[trigger] spec_glyph_rows(c1)[k] != 0,
{
    lemma_glyph_code_decodes(c1);
    lemma_glyph_code_decodes(c2);
    let rows = spec_glyph_rows(c1);
    if c1 != ' ' && forall|k: int| 0 <= k < 7 ==> #[trigger] rows[k] == 0 {
        assert(rows[0] == 0 && rows[1] == 0 && rows[2] == 0 && rows[3] == 0 && rows[4] == 0
            && rows[5] == 0 && rows[6] == 0);
    }
}

/// The glyph bitmap of `character`.
pub fn diagnostic_glyph_rows(character: char) -> (rows: [u8; 7])
    ensures
        rows@ == spec_glyph_rows(character),
{
    match character {
        'A' => [0b01110u8, 0b10001, 0b10001, 0b11111, 0b10001, 0b10001, 0b10001],
        'B' => [0b11110u8, 0b10001, 0b10001, 0b11110, 0b10001, 0b10001, 0b11110],
        'C' => [0b01110u8, 0b10001, 0b10000, 0b10000, 0b10000, 0b10001, 0b01110],
        'D' => [0b11110u8, 0b10001, 0b10001, 0b10001, 0b10001, 0b10001, 0b11110],
        'E' => [0b11111u8, 0b10000, 0b10000, 0b11110, 0b10000, 0b10000, 0b11111],
        'F' => [0b11111u8, 0b10000, 0b10000, 0b11110, 0b10000, 0b10000, 0b10000],
        'G' => [0b01110u8, 0b10001, 0b10000, 0b10111, 0b10001, 0b10001, 0b01110],
        'H' => [0b10001u8, 0b10001, 0b10001, 0b11111, 0b10001, 0b10001, 0b10001],
        'I' => [0b01110u8, 0b00100, 0b00100, 0b00100, 0b00100, 0b00100, 0b01110],
        'J' => [0b00111u8, 0b00010, 0b00010, 0b00010, 0b10010, 0b10010, 0b01100],
        'K' => [0b10001u8, 0b10010, 0b10100, 0b11000, 0b10100, 0b10010, 0b10001],
        'L' => [0b10000u8, 0b10000, 0b10000, 0b10000, 0b10000, 0b10000, 0b11111],
        'M' => [0b10001u8, 0b11011, 0b10101, 0b10101, 0b10001, 0b10001, 0b10001],
        'N' => [0b10001u8, 0b11001, 0b10101, 0b10011, 0b10001, 0b10001, 0b10001],
        'O' => [0b01110u8, 0b10001, 0b10001, 0b10001, 0b10001, 0b10001, 0b01110],
        'P' => [0b11110u8, 0b10001, 0b10001, 0b11110, 0b10000, 0b10000, 0b10000],
        'Q' => [0b01110u8, 0b10001, 0b10001, 0b10001, 0b10101, 0b10010, 0b01101],
        'R' => [0b11110u8, 0b10001, 0b10001, 0b11110, 0b10100, 0b10010, 0b10001],
        'S' => [0b01111u8, 0b10000, 0b10000, 0b01110, 0b00001, 0b00001, 0b11110],
        'T' => [0b11111u8, 0b00100, 0b00100, 0b00100, 0b00100, 0b00100, 0b00100],
        'U' => [0b10001u8, 0b10001, 0b10001, 0b10001, 0b10001, 0b10001, 0b01110],
        'V' => [0b10001u8, 0b10001, 0b10001, 0b10001, 0b10001, 0b01010, 0b00100],
        'W' => [0b10001u8, 0b10001, 0b10001, 0b10101, 0b10101, 0b10101, 0b01010],
        'X' => [0b10001u8, 0b10001, 0b01010, 0b00100, 0b01010, 0b10001, 0b10001],
        'Y' => [0b10001u8, 0b10001, 0b01010, 0b00100, 0b00100, 0b00100, 0b00100],
        'Z' => [0b11111u8, 0b00001, 0b00010, 0b00100, 0b01000, 0b10000, 0b11111],
        '0' => [0b01110u8, 0b10001, 0b10011, 0b10101, 0b11001, 0b10001, 0b01110],
        '1' => [0b00100u8, 0b01100, 0b00100, 0b00100, 0b00100, 0b00100, 0b01110],
        '2' => [0b01110u8, 0b10001, 0b00001, 0b00010, 0b00100, 0b01000, 0b11111],
        '3' => [0b11110u8, 0b00001, 0b00001, 0b01110, 0b00001, 0b00001, 0b11110],
        '4' => [0b00010u8, 0b00110, 0b01010, 0b10010, 0b11111, 0b00010, 0b00010],
        '5' => [0b11111u8, 0b10000, 0b11110, 0b00001, 0b00001, 0b10001, 0b01110],
        '6' => [0b00110u8, 0b01000, 0b10000, 0b11110, 0b10001, 0b10001, 0b01110],
        '7' => [0b11111u8, 0b00001, 0b00010, 0b00100, 0b01000, 0b01000, 0b01000],
        '8' => [0b01110u8, 0b10001, 0b10001, 0b01110, 0b10001, 0b10001, 0b01110],
        '9' => [0b01110u8, 0b10001, 0b10001, 0b01111, 0b00001, 0b00010, 0b01100],
        '-' => [0b00000u8, 0b00000, 0b00000, 0b11111, 0b00000, 0b00000, 0b00000],
        ':' => [0b00000u8, 0b00100, 0b00100, 0b00000, 0b00100, 0b00100, 0b00000],
        '.' => [0b00000u8, 0b00000, 0b00000, 0b00000, 0b00000, 0b00100, 0b00100],
        '/' => [0b00001u8, 0b00010, 0b00010, 0b00100, 0b01000, 0b01000, 0b10000],
        '_' => [0b00000u8, 0b00000, 0b00000, 0b00000, 0b00000, 0b00000, 0b11111],
        '(' => [0b00010u8, 0b00100, 0b01000, 0b01000, 0b01000, 0b00100, 0b00010],
        ')' => [0b01000u8, 0b00100, 0b00010, 0b00010, 0b00010, 0b00100, 0b01000],
        ',' => [0b00000u8, 0b00000, 0b00000, 0b00000, 0b00100, 0b00100, 0b01000],
        '\'' => [0b00100u8, 0b00100, 0b01000, 0b00000, 0b00000, 0b00000, 0b00000],
        '=' => [0b00000u8, 0b00000, 0b11111, 0b00000, 0b11111, 0b00000, 0b00000],
        '?' => [0b01110u8, 0b10001, 0b00001, 0b00010, 0b00100, 0b00000, 0b00100],
        '!' => [0b00100u8, 0b00100, 0b00100, 0b00100, 0b00100, 0b00000, 0b00100],
        _ => [0; 7],
    }
}

/// Channel `shift` (16 red, 8 green, 0 blue) of an XRGB8888 pixel.
pub open spec fn spec_channel(pixel: u32, shift: u32) -> u32 {
    (pixel >> shift) & 0xff
}

/// Linear blend of two XRGB8888 colors, `mix` out of 255 towards `to`
/// (larger mixes count as 255), each channel rounded down.
pub open spec fn spec_lerp_xrgb(from: u32, to: u32, mix: u32) -> u32 {
    let m: u32 = if mix < 255 { mix } else { 255 };
    let inverse: u32 = (255 - m) as u32;
    let red: u32 = ((spec_channel(from, 16) * inverse + spec_channel(to, 16) * m) / 255) as u32;
    let green: u32 = ((spec_channel(from, 8) * inverse + spec_channel(to, 8) * m) / 255) as u32;
    let blue: u32 = ((spec_channel(from, 0) * inverse + spec_channel(to, 0) * m) / 255) as u32;
    (red << 16) | (green << 8) | blue
}

proof fn lemma_channel_bound(pixel: u32, shift: u32)
    ensures
        spec_channel(pixel, shift) <= 255,
{
    assert((pixel >> shift) & 0xff <= 255) by (bit_vector);
}

proof fn lemma_blend_bound(a: u32, b: u32, m: u32)
    requires
        a <= 255,
        b <= 255,
        m <= 255,
    ensures
        a * (255 - m) + b * m <= 255 * 255,
        (a * (255 - m) + b * m) / 255 <= 255,
{
    assert(a * (255 - m) <= 255 * (255 - m)) by (nonlinear_arith)
        requires
            a <= 255,
            m <= 255,
    ;
    assert(b * m <= 255 * m) by (nonlinear_arith)
        requires
            b <= 255,
    ;
}

/// Blends two colors.
pub fn lerp_xrgb(from: u32, to: u32, mix: u32) -> (color: u32)
    ensures
        color == spec_lerp_xrgb(from, to, mix),
{
    let m: u32 = if mix < 255 {
        mix
    } else {
        255
    };
    let inverse: u32 = 255 - m;
    proof {
        lemma_channel_bound(from, 16);
        lemma_channel_bound(to, 16);
        lemma_channel_bound(from, 8);
        lemma_channel_bound(to, 8);
        lemma_channel_bound(from, 0);
        lemma_channel_bound(to, 0);
        lemma_blend_bound(spec_channel(from, 16), spec_channel(to, 16), m);
        lemma_blend_bound(spec_channel(from, 8), spec_channel(to, 8), m);
        lemma_blend_bound(spec_channel(from, 0), spec_channel(to, 0), m);
    }
    proof {
        assert(from >> 0u32 == from) by (bit_vector);
        assert(to >> 0u32 == to) by (bit_vector);
    }
    let red: u32 = (((from >> 16) & 0xff) * inverse + ((to >> 16) & 0xff) * m) / 255;
    let green: u32 = (((from >> 8) & 0xff) * inverse + ((to >> 8) & 0xff) * m) / 255;
    let blue: u32 = ((from & 0xff) * inverse + (to & 0xff) * m) / 255;
    (red << 16) | (green << 8) | blue
}

/// Pixel scale of the block font: one step per 160 pixels of the smaller
/// dimension, between 2 and 4.
pub open spec fn spec_diagnostic_pixel_scale(width: u32, height: u32) -> u32 {
    let min_dimension = if width < height { width } else { height };
    let steps = min_dimension / 160;
    if steps < 2 {
        2
    } else if steps > 4 {
        4
    } else {
        steps
    }
}

pub fn diagnostic_pixel_scale(width: u32, height: u32) -> (scale: u32)
    ensures
        scale == spec_diagnostic_pixel_scale(width, height),
        2 <= scale <= 4,
{
    let min_dimension = if width < height {
        width
    } else {
        height
    };
    let steps = min_dimension / 160;
    if steps < 2 {
        2
    } else if steps > 4 {
        4
    } else {
        steps
    }
}

/// Whether pixel `i` of a `width`-wide framebuffer lies in the rectangle
/// `[x, max_x) x [y, max_y)`.
pub open spec fn spec_in_rect(i: int, width: int, x: int, y: int, max_x: int, max_y: int) -> bool {
    &&& y <= i / width < max_y
    &&& x <= i % width < max_x
}

/// The framebuffer after filling a rectangle, clipped to the surface; an
/// empty rectangle or one that starts outside the surface changes nothing.
pub open spec fn spec_fill_rect(
    fb: Seq<u32>,
    width: int,
    height: int,
    x: int,
    y: int,
    rect_width: int,
    rect_height: int,
    color: u32,
) -> Seq<u32> {
    if rect_width <= 0 || rect_height <= 0 || x >= width || y >= height {
        fb
    } else {
        let max_x = if x + rect_width < width { x + rect_width } else { width };
        let max_y = if y + rect_height < height { y + rect_height } else { height };
        Seq::new(
            fb.len(),
            |i: int| if spec_in_rect(i, width, x, y, max_x, max_y) { color } else { fb[i] },
        )
    }
}

pub(crate) proof fn lemma_pixel_coordinates(width: int, row: int, col: int)
    requires
        width > 0,
        row >= 0,
        0 <= col < width,
    ensures
        (row * width + col) / width == row,
        (row * width + col) % width == col,
{
    lemma_fundamental_div_mod_converse(row * width + col, width, row, col);
}

proof fn lemma_row_end(width: int, height: int, row: int)
    requires
        width > 0,
        0 <= row < height,
    ensures
        row * width + width <= width * height,
        row * width >= 0,
{
    assert(row * width + width <= width * height) by (nonlinear_arith)
        requires
            width > 0,
            0 <= row < height,
    ;
    assert(row * width >= 0) by (nonlinear_arith)
        requires
            width > 0,
            row >= 0,
    ;
}

proof fn lemma_pixel_row(width: int, i: int)
    requires
        width > 0,
        i >= 0,
    ensures
        i == (i / width) * width + i % width,
        0 <= i % width < width,
        i / width >= 0,
{
    assert(i == (i / width) * width + i % width && 0 <= i % width < width && i / width >= 0)
        by (nonlinear_arith)
        requires
            width > 0,
            i >= 0,
    ;
}

/// Whether cell `k` (row `k / 5`, column `k % 5`) of a glyph bitmap is lit.
pub open spec fn spec_cell_lit(rows: Seq<u8>, k: int) -> bool {
    rows[k / 5] & (1u8 << ((4 - k % 5) as u32)) != 0
}

/// The framebuffer after drawing cells `k..35` of a glyph bitmap at
/// `(x, y)`, each lit cell a `scale` x `scale` square.
pub open spec fn spec_draw_cells(
    fb: Seq<u32>,
    width: int,
    height: int,
    rows: Seq<u8>,
    k: int,
    x: int,
    y: int,
    scale: int,
    color: u32,
) -> Seq<u32>
    decreases 35 - k,
{
    if k >= 35 || k < 0 {
        fb
    } else {
        let next = if spec_cell_lit(rows, k) {
            spec_fill_rect(fb, width, height, x + (k % 5) * scale, y + (k / 5) * scale, scale, scale, color)
        } else {
            fb
        };
        spec_draw_cells(next, width, height, rows, k + 1, x, y, scale, color)
    }
}

/// The framebuffer after drawing the glyph of `character` at `(x, y)`.
pub open spec fn spec_draw_glyph(
    fb: Seq<u32>,
    width: int,
    height: int,
    character: char,
    x: int,
    y: int,
    scale: int,
    color: u32,
) -> Seq<u32> {
    spec_draw_cells(fb, width, height, spec_glyph_rows(character), 0, x, y, scale, color)
}

/// `a + b`, saturating at `u32::MAX`.
pub open spec fn spec_saturating_add(a: int, b: int) -> int {
    if a + b > u32::MAX {
        u32::MAX as int
    } else {
        a + b
    }
}

/// The framebuffer after drawing `text` from `(x, y)`, each character at the
/// next advance of six font pixels.
pub open spec fn spec_draw_text(
    fb: Seq<u32>,
    width: int,
    height: int,
    text: Seq<char>,
    x: int,
    y: int,
    scale: int,
    color: u32,
) -> Seq<u32>
    decreases text.len(),
{
    if text.len() == 0 {
        fb
    } else {
        let drawn = spec_draw_glyph(
            fb,
            width,
            height,
            spec_diagnostic_character(text[0]),
            x,
            y,
            scale,
            color,
        );
        spec_draw_text(
            drawn,
            width,
            height,
            text.drop_first(),
            spec_saturating_add(x, 6 * scale),
            y,
            scale,
            color,
        )
    }
}

/// The framebuffer after drawing `lines`, the first `header_count` lines
/// of all (counting from `index`) in the header color, each nine font pixels
/// below the previous one.
pub open spec fn spec_draw_lines(
    fb: Seq<u32>,
    width: int,
    height: int,
    lines: Seq<Seq<char>>,
    index: int,
    header_count: int,
    y: int,
    scale: int,
) -> Seq<u32>
    decreases lines.len(),
{
    if lines.len() == 0 {
        fb
    } else {
        let color = if index < header_count {
            XRGB_SOFTWARE_TEXT
        } else {
            XRGB_SOFTWARE_DIM_TEXT
        };
        let drawn = spec_draw_text(fb, width, height, lines[0], 12, y, scale, color);
        spec_draw_lines(
            drawn,
            width,
            height,
            lines.drop_first(),
            index + 1,
            header_count,
            spec_saturating_add(y, 9 * scale),
            scale,
        )
    }
}

/// The message as the block font shows it: its first 320 characters, each
/// mapped to the glyph shown for it.
pub open spec fn spec_sanitize_message(message: Seq<char>) -> Seq<char> {
    let n: int = if message.len() < 320 { message.len() as int } else { 320 };
    message.take(n).map_values(|c: char| spec_diagnostic_character(c))
}

/// `word` cut into pieces of `size` characters, the last one possibly shorter.
pub open spec fn spec_chunks(word: Seq<char>, size: int) -> Seq<Seq<char>>
    decreases word.len(),
{
    if word.len() == 0 || size <= 0 {
        Seq::empty()
    } else if word.len() <= size {
        seq![word]
    } else {
        seq![word.take(size)] + spec_chunks(word.skip(size), size)
    }
}

/// Greedy wrapping of one more word: `out` holds the finished lines and
/// `current` the line being filled. A word longer than a line is cut into
/// line-sized pieces on lines of their own.
pub open spec fn spec_wrap_word(
    out: Seq<Seq<char>>,
    current: Seq<char>,
    word: Seq<char>,
    max_columns: int,
) -> (Seq<Seq<char>>, Seq<char>) {
    if word.len() > max_columns {
        let flushed = if current.len() > 0 {
            out.push(current)
        } else {
            out
        };
        let size = if max_columns < 1 {
            1
        } else {
            max_columns
        };
        (flushed + spec_chunks(word, size), Seq::empty())
    } else if current.len() == 0 {
        (out, word)
    } else if current.len() + 1 + word.len() <= max_columns {
        (out, current + seq![' '] + word)
    } else {
        (out.push(current), word)
    }
}

/// Greedy wrapping of `words`, starting a fresh line after `out`.
pub open spec fn spec_wrap_words(out: Seq<Seq<char>>, words: Seq<Seq<char>>, max_columns: int) -> (
    Seq<Seq<char>>,
    Seq<char>,
)
    decreases words.len(),
{
    if words.len() == 0 {
        (out, Seq::empty())
    } else {
        let (o, c) = spec_wrap_words(out, words.drop_last(), max_columns);
        spec_wrap_word(o, c, words.last(), max_columns)
    }
}

/// The wrapped lines after adding the words of one source line.
pub open spec fn spec_wrap_line(out: Seq<Seq<char>>, line: Seq<char>, max_columns: int) -> Seq<
    Seq<char>,
> {
    let (o, c) = spec_wrap_words(out, spec_split_whitespace(line), max_columns);
    if c.len() > 0 {
        o.push(c)
    } else {
        o
    }
}

/// The wrapped lines of all source lines.
pub open spec fn spec_wrap_lines(lines: Seq<Seq<char>>, max_columns: int) -> Seq<Seq<char>>
    decreases lines.len(),
{
    if lines.len() == 0 {
        Seq::empty()
    } else {
        spec_wrap_line(spec_wrap_lines(lines.drop_last(), max_columns), lines.last(), max_columns)
    }
}

/// The line shown when a message has no word to show.
pub open spec fn spec_no_message_line() -> Seq<char> {
    "NO DIAGNOSTIC MESSAGE"@
}

/// A message wrapped to `max_columns`: its sanitized source lines, each
/// greedily wrapped word by word; a message without words gives the single
/// line `NO DIAGNOSTIC MESSAGE`.
pub open spec fn spec_wrap_diagnostic_message(message: Seq<char>, max_columns: int) -> Seq<Seq<char>> {
    let out = spec_wrap_lines(spec_lines(spec_sanitize_message(message)), max_columns);
    if out.len() == 0 {
        seq![spec_no_message_line()]
    } else {
        out
    }
}

/// The character sequences held by a list of character vectors.
pub open spec fn spec_char_lines(lines: Seq<Vec<char>>) -> Seq<Seq<char>> {
    lines.map_values(|line: Vec<char>| line@)
}

fn chunks(word: &Vec<char>, size: usize, out: &mut Vec<Vec<char>>)
    requires
        size > 0,
    ensures
        spec_char_lines(final(out)@) == spec_char_lines(old(out)@) + spec_chunks(word@, size as int),
{
    let ghost start_out = spec_char_lines(out@);
    let mut start: usize = 0;
    assert(word@.skip(0) =~= word@);
    while start < word.len()
        invariant
            size > 0,
            start <= word.len(),
            start_out + spec_chunks(word@, size as int) == spec_char_lines(out@) + spec_chunks(
                word@.skip(start as int),
                size as int,
            ),
        decreases word.len() - start,
    {
        let rest = word.len() - start;
        let end = if rest <= size {
            word.len()
        } else {
            start + size
        };
        let piece = slice_to_vec(slice_subrange(word.as_slice(), start, end));
        let ghost before = spec_char_lines(out@);
        out.push(piece);
        proof {
            let tail = word@.skip(start as int);
            assert(spec_char_lines(out@) =~= before.push(piece@));
            if rest <= size {
                assert(piece@ =~= tail);
                assert(word@.skip(end as int) =~= Seq::<char>::empty());
                assert(spec_chunks(tail, size as int) =~= seq![tail]);
                assert(before + spec_chunks(tail, size as int) =~= before.push(piece@) + spec_chunks(
                    word@.skip(end as int),
                    size as int,
                ));
            } else {
                assert(piece@ =~= tail.take(size as int));
                assert(tail.skip(size as int) =~= word@.skip(end as int));
                assert(before + spec_chunks(tail, size as int) =~= before.push(piece@) + spec_chunks(
                    word@.skip(end as int),
                    size as int,
                ));
            }
        }
        start = end;
    }
    proof {
        assert(word@.skip(start as int) =~= Seq::<char>::empty());
        assert(spec_char_lines(out@) + spec_chunks(word@.skip(start as int), size as int)
            =~= spec_char_lines(out@));
    }
}

fn wrap_word(out: &mut Vec<Vec<char>>, current: &mut Vec<char>, word: &Vec<char>, max_columns: usize)
    ensures
        (spec_char_lines(final(out)@), final(current)@) == spec_wrap_word(
            spec_char_lines(old(out)@),
            old(current)@,
            word@,
            max_columns as int,
        ),
{
    let ghost out0 = spec_char_lines(out@);
    let ghost cur0 = current@;
    if word.len() > max_columns {
        if current.len() > 0 {
            let mut line: Vec<char> = Vec::new();
            core::mem::swap(current, &mut line);
            out.push(line);
            assert(spec_char_lines(out@) =~= out0.push(cur0));
        }
        let size = if max_columns < 1 {
            1
        } else {
            max_columns
        };
        chunks(word, size, out);
        *current = Vec::new();
    } else if current.len() == 0 {
        *current = slice_to_vec(word.as_slice());
    } else if current.len() as u128 + 1 + word.len() as u128 <= max_columns as u128 {
        current.push(' ');
        let mut i: usize = 0;
        let ghost with_space = current@;
        while i < word.len()
            invariant
                i <= word.len(),
                current@ == with_space + word@.take(i as int),
            decreases word.len() - i,
        {
            current.push(word[i]);
            i = i + 1;
            assert(current@ =~= with_space + word@.take(i as int));
        }
        assert(word@.take(word@.len() as int) =~= word@);
        assert(current@ =~= cur0 + seq![' '] + word@);
    } else {
        let mut line = slice_to_vec(word.as_slice());
        core::mem::swap(current, &mut line);
        out.push(line);
        assert(spec_char_lines(out@) =~= out0.push(cur0));
    }
}

fn wrap_line(out: &mut Vec<Vec<char>>, line: &Vec<char>, max_columns: usize)
    ensures
        spec_char_lines(final(out)@) == spec_wrap_line(
            spec_char_lines(old(out)@),
            line@,
            max_columns as int,
        ),
{
    let words = split_whitespace(line.as_slice());
    let ghost out0 = spec_char_lines(out@);
    let ghost all_words = spec_split_whitespace(line@);
    let mut current: Vec<char> = Vec::new();
    let mut i: usize = 0;
    while i < words.len()
        invariant
            i <= words.len(),
            words@.len() == all_words.len(),
            forall|j: int| 0 <= j < words@.len() ==> #[trigger] words@[j]@ == all_words[j],
            (spec_char_lines(out@), current@) == spec_wrap_words(
                out0,
                all_words.take(i as int),
                max_columns as int,
            ),
        decreases words.len() - i,
    {
        proof {
            assert(all_words.take(i + 1).drop_last() =~= all_words.take(i as int));
        }
        wrap_word(out, &mut current, &words[i], max_columns);
        i = i + 1;
    }
    proof {
        assert(all_words.take(i as int) =~= all_words);
    }
    if current.len() > 0 {
        let ghost before = spec_char_lines(out@);
        let ghost last = current@;
        out.push(current);
        assert(spec_char_lines(out@) =~= before.push(last));
    }
}

/// Wraps a message into lines of block-font characters for a diagnostic screen.
fn wrap_message_chars(message: &str, max_columns: usize) -> (lines: Vec<Vec<char>>)
    ensures
        spec_char_lines(lines@) == spec_wrap_diagnostic_message(message@, max_columns as int),
{
    let length = message.unicode_len();
    let n = if length < DIAGNOSTIC_MAX_CHARS {
        length
    } else {
        DIAGNOSTIC_MAX_CHARS
    };
    let mut sanitized: Vec<char> = Vec::new();
    let mut i: usize = 0;
    while i < n
        invariant
            n <= message@.len(),
            i <= n,
            sanitized@ == message@.take(i as int).map_values(|c: char| spec_diagnostic_character(c)),
        decreases n - i,
    {
        sanitized.push(diagnostic_character(message.get_char(i)));
        i = i + 1;
        assert(sanitized@ =~= message@.take(i as int).map_values(
            |c: char| spec_diagnostic_character(c),
        ));
    }
    assert(sanitized@ =~= spec_sanitize_message(message@));
    let source_lines = lines(sanitized.as_slice());
    let ghost all_lines = spec_lines(sanitized@);
    let mut out: Vec<Vec<char>> = Vec::new();
    let mut k: usize = 0;
    assert(spec_char_lines(out@) =~= Seq::<Seq<char>>::empty());
    while k < source_lines.len()
        invariant
            k <= source_lines.len(),
            source_lines@.len() == all_lines.len(),
            forall|j: int| 0 <= j < source_lines@.len() ==> #[trigger] source_lines@[j]@ == all_lines[j],
            spec_char_lines(out@) == spec_wrap_lines(all_lines.take(k as int), max_columns as int),
        decreases source_lines.len() - k,
    {
        proof {
            assert(all_lines.take(k + 1).drop_last() =~= all_lines.take(k as int));
        }
        wrap_line(&mut out, &source_lines[k], max_columns);
        k = k + 1;
    }
    proof {
        assert(all_lines.take(k as int) =~= all_lines);
    }
    if out.len() == 0 {
        let fallback = "NO DIAGNOSTIC MESSAGE";
        proof {
            reveal_strlit("NO DIAGNOSTIC MESSAGE");
        }
        out.push(str_chars(fallback));
        assert(spec_char_lines(out@) =~= seq![spec_no_message_line()]);
    }
    out
}

/// Wraps a diagnostic message for the block font: the first 320 characters,
/// upper-cased and with unsupported characters shown as `?`, are split into
/// words and greedily wrapped to `max_columns`; longer words are cut. A
/// message without words gives `NO DIAGNOSTIC MESSAGE`.
pub fn wrap_diagnostic_message(message: &str, max_columns: usize) -> (lines: Vec<String>)
    ensures
        lines@.len() == spec_wrap_diagnostic_message(message@, max_columns as int).len(),
        forall|i: int|
            0 <= i < lines@.len() ==> #[trigger] lines@[i]@ == spec_wrap_diagnostic_message(
                message@,
                max_columns as int,
            )[i],
{
    let wrapped = wrap_message_chars(message, max_columns);
    let ghost expected = spec_wrap_diagnostic_message(message@, max_columns as int);
    let mut lines: Vec<String> = Vec::new();
    let mut i: usize = 0;
    while i < wrapped.len()
        invariant
            i <= wrapped.len(),
            spec_char_lines(wrapped@) == expected,
            lines@.len() == i,
            forall|j: int| 0 <= j < i ==> #[trigger] lines@[j]@ == expected[j],
        decreases wrapped.len() - i,
    {
        let line = string_from_chars(wrapped[i].as_slice());
        proof {
            assert(expected[i as int] == wrapped@[i as int]@);
        }
        lines.push(line);
        i = i + 1;
    }
    lines
}

/// Whether a wrapped line holds at least one and at most
/// `max(max_columns, 1)` characters.
pub open spec fn spec_line_fits(line: Seq<char>, max_columns: int) -> bool {
    1 <= line.len() <= spec_max(max_columns, 1)
}

proof fn lemma_chunks_fit(word: Seq<char>, size: int)
    requires
        size >= 1,
    ensures
        forall|i: int|
            0 <= i < spec_chunks(word, size).len() ==> 1 <= #[trigger] spec_chunks(word, size)[i].len()
                <= size,
    decreases word.len(),
{
    if word.len() > size {
        lemma_chunks_fit(word.skip(size), size);
        let rest = spec_chunks(word.skip(size), size);
        assert forall|i: int| 0 <= i < spec_chunks(word, size).len() implies 1
            <= #[trigger] spec_chunks(word, size)[i].len() <= size by {
            if i > 0 {
                assert(spec_chunks(word, size)[i] == rest[i - 1]);
            }
        }
    }
}

proof fn lemma_wrap_words_fit(out: Seq<Seq<char>>, words: Seq<Seq<char>>, max_columns: int)
    requires
        forall|i: int| 0 <= i < out.len() ==> spec_line_fits(#[trigger] out[i], max_columns),
        forall|i: int| 0 <= i < words.len() ==> #[trigger] words[i].len() > 0,
    ensures
        forall|i: int|
            0 <= i < spec_wrap_words(out, words, max_columns).0.len() ==> spec_line_fits(
                #[trigger] spec_wrap_words(out, words, max_columns).0[i],
                max_columns,
            ),
        spec_wrap_words(out, words, max_columns).1.len() <= spec_max(max_columns, 1),
    decreases words.len(),
{
    if words.len() > 0 {
        lemma_wrap_words_fit(out, words.drop_last(), max_columns);
        let (o, c) = spec_wrap_words(out, words.drop_last(), max_columns);
        let word = words.last();
        assert(word.len() > 0);
        let size = spec_max(max_columns, 1);
        if word.len() > max_columns {
            let flushed = if c.len() > 0 {
                o.push(c)
            } else {
                o
            };
            assert forall|i: int| 0 <= i < flushed.len() implies spec_line_fits(
                #[trigger] flushed[i],
                max_columns,
            ) by {
                if i < o.len() {
                    assert(flushed[i] == o[i]);
                }
            }
            lemma_chunks_fit(word, size);
            let pieces = spec_chunks(word, size);
            let result = flushed + pieces;
            assert forall|i: int| 0 <= i < result.len() implies spec_line_fits(
                #[trigger] result[i],
                max_columns,
            ) by {
                if i < flushed.len() {
                    assert(result[i] == flushed[i]);
                } else {
                    assert(result[i] == pieces[i - flushed.len()]);
                }
            }
        } else if c.len() == 0 {
        } else if c.len() + 1 + word.len() <= max_columns {
        } else {
            let result = o.push(c);
            assert forall|i: int| 0 <= i < result.len() implies spec_line_fits(
                #[trigger] result[i],
                max_columns,
            ) by {
                if i < o.len() {
                    assert(result[i] == o[i]);
                }
            }
        }
    }
}

proof fn lemma_wrap_lines_fit(lines: Seq<Seq<char>>, max_columns: int)
    ensures
        forall|i: int|
            0 <= i < spec_wrap_lines(lines, max_columns).len() ==> spec_line_fits(
                #[trigger] spec_wrap_lines(lines, max_columns)[i],
                max_columns,
            ),
    decreases lines.len(),
{
    if lines.len() > 0 {
        let before = spec_wrap_lines(lines.drop_last(), max_columns);
        lemma_wrap_lines_fit(lines.drop_last(), max_columns);
        let words = spec_split_whitespace(lines.last());
        lemma_split_whitespace_nonempty(lines.last());
        lemma_wrap_words_fit(before, words, max_columns);
        let (o, c) = spec_wrap_words(before, words, max_columns);
        if c.len() > 0 {
            let result = o.push(c);
            assert forall|i: int| 0 <= i < result.len() implies spec_line_fits(
                #[trigger] result[i],
                max_columns,
            ) by {
                if i < o.len() {
                    assert(result[i] == o[i]);
                }
            }
        }
    }
}

/// A wrapped message is never empty, and unless it is the single line
/// `NO DIAGNOSTIC MESSAGE`, each of its lines holds at least one and at most
/// `max(max_columns, 1)` characters.
pub proof fn lemma_wrapped_message_lines_fit(message: Seq<char>, max_columns: int)
    ensures
        spec_wrap_diagnostic_message(message, max_columns).len() >= 1,
        spec_wrap_diagnostic_message(message, max_columns) == seq![spec_no_message_line()] || forall|
            i: int,
        |
            0 <= i < spec_wrap_diagnostic_message(message, max_columns).len() ==> spec_line_fits(
                #[trigger] spec_wrap_diagnostic_message(message, max_columns)[i],
                max_columns,
            ),
{
    lemma_wrap_lines_fit(spec_lines(spec_sanitize_message(message)), max_columns);
}

/// Whether the block font draws every character of `text`.
pub open spec fn spec_all_glyph_chars(text: Seq<char>) -> bool {
    forall|k: int| 0 <= k < text.len() ==> spec_is_glyph_char(#[trigger] text[k])
}

/// Whether the block font draws every character of every line.
pub open spec fn spec_lines_glyph_chars(lines: Seq<Seq<char>>) -> bool {
    forall|i: int| 0 <= i < lines.len() ==> spec_all_glyph_chars(#[trigger] lines[i])
}

proof fn lemma_sanitized_glyph_chars(message: Seq<char>)
    ensures
        spec_all_glyph_chars(spec_sanitize_message(message)),
{
    let sanitized = spec_sanitize_message(message);
    assert forall|k: int| 0 <= k < sanitized.len() implies spec_is_glyph_char(#[trigger] sanitized[k]) by {
        let upper = spec_ascii_upper(message[k]);
        if !spec_is_glyph_char(upper) {
            assert(sanitized[k] == '?');
        }
    }
}

proof fn lemma_lines_state_glyph_chars(s: Seq<char>)
    requires
        spec_all_glyph_chars(s),
    ensures
        spec_lines_glyph_chars(spec_lines_state(s).0),
        spec_all_glyph_chars(spec_lines_state(s).1),
    decreases s.len(),
{
    if s.len() > 0 {
        assert(spec_all_glyph_chars(s.drop_last()));
        lemma_lines_state_glyph_chars(s.drop_last());
        let (lines, current) = spec_lines_state(s.drop_last());
        assert(spec_is_glyph_char(s[s.len() - 1]));
        if s.last() == '\n' {
            let stripped = spec_strip_cr(current);
            assert(spec_all_glyph_chars(stripped));
            let next = lines.push(stripped);
            assert forall|i: int| 0 <= i < next.len() implies spec_all_glyph_chars(#[trigger] next[i]) by {
                if i < lines.len() {
                    assert(next[i] == lines[i]);
                }
            }
        } else {
            assert(spec_all_glyph_chars(current.push(s.last())));
        }
    }
}

proof fn lemma_lines_glyph_chars(s: Seq<char>)
    requires
        spec_all_glyph_chars(s),
    ensures
        spec_lines_glyph_chars(spec_lines(s)),
{
    lemma_lines_state_glyph_chars(s);
    let (lines, current) = spec_lines_state(s);
    if current.len() > 0 {
        let all = lines.push(current);
        assert forall|i: int| 0 <= i < all.len() implies spec_all_glyph_chars(#[trigger] all[i]) by {
            if i < lines.len() {
                assert(all[i] == lines[i]);
            }
        }
    }
}

proof fn lemma_split_state_glyph_chars(s: Seq<char>)
    requires
        spec_all_glyph_chars(s),
    ensures
        spec_lines_glyph_chars(spec_split_whitespace_state(s).0),
        spec_all_glyph_chars(spec_split_whitespace_state(s).1),
    decreases s.len(),
{
    if s.len() > 0 {
        assert(spec_all_glyph_chars(s.drop_last()));
        lemma_split_state_glyph_chars(s.drop_last());
        let (words, current) = spec_split_whitespace_state(s.drop_last());
        assert(spec_is_glyph_char(s[s.len() - 1]));
        if spec_is_whitespace(s.last()) {
            if current.len() > 0 {
                let next = words.push(current);
                assert forall|i: int| 0 <= i < next.len() implies spec_all_glyph_chars(#[trigger] next[i]) by {
                    if i < words.len() {
                        assert(next[i] == words[i]);
                    }
                }
            }
        } else {
            assert(spec_all_glyph_chars(current.push(s.last())));
        }
    }
}

proof fn lemma_split_glyph_chars(s: Seq<char>)
    requires
        spec_all_glyph_chars(s),
    ensures
        spec_lines_glyph_chars(spec_split_whitespace(s)),
{
    lemma_split_state_glyph_chars(s);
    let (words, current) = spec_split_whitespace_state(s);
    if current.len() > 0 {
        let all = words.push(current);
        assert forall|i: int| 0 <= i < all.len() implies spec_all_glyph_chars(#[trigger] all[i]) by {
            if i < words.len() {
                assert(all[i] == words[i]);
            }
        }
    }
}

proof fn lemma_chunks_glyph_chars(word: Seq<char>, size: int)
    requires
        spec_all_glyph_chars(word),
    ensures
        spec_lines_glyph_chars(spec_chunks(word, size)),
    decreases word.len(),
{
    if word.len() > 0 && size > 0 && word.len() > size {
        let rest = word.skip(size);
        assert(spec_all_glyph_chars(rest));
        assert(spec_all_glyph_chars(word.take(size)));
        lemma_chunks_glyph_chars(rest, size);
        let all = spec_chunks(word, size);
        assert forall|i: int| 0 <= i < all.len() implies spec_all_glyph_chars(#[trigger] all[i]) by {
            if i > 0 {
                assert(all[i] == spec_chunks(rest, size)[i - 1]);
            }
        }
    } else if word.len() > 0 && size > 0 {
        assert(spec_chunks(word, size)[0] == word);
    }
}

proof fn lemma_wrap_words_glyph_chars(out: Seq<Seq<char>>, words: Seq<Seq<char>>, max_columns: int)
    requires
        spec_lines_glyph_chars(out),
        spec_lines_glyph_chars(words),
    ensures
        spec_lines_glyph_chars(spec_wrap_words(out, words, max_columns).0),
        spec_all_glyph_chars(spec_wrap_words(out, words, max_columns).1),
    decreases words.len(),
{
    if words.len() > 0 {
        assert(spec_lines_glyph_chars(words.drop_last()));
        lemma_wrap_words_glyph_chars(out, words.drop_last(), max_columns);
        let (o, c) = spec_wrap_words(out, words.drop_last(), max_columns);
        let word = words.last();
        assert(spec_all_glyph_chars(word));
        if word.len() > max_columns {
            let flushed = if c.len() > 0 {
                o.push(c)
            } else {
                o
            };
            assert forall|i: int| 0 <= i < flushed.len() implies spec_all_glyph_chars(#[trigger] flushed[i]) by {
                if i < o.len() {
                    assert(flushed[i] == o[i]);
                }
            }
            let size = if max_columns < 1 {
                1
            } else {
                max_columns
            };
            lemma_chunks_glyph_chars(word, size);
            let pieces = spec_chunks(word, size);
            let result = flushed + pieces;
            assert forall|i: int| 0 <= i < result.len() implies spec_all_glyph_chars(#[trigger] result[i]) by {
                if i < flushed.len() {
                    assert(result[i] == flushed[i]);
                } else {
                    assert(result[i] == pieces[i - flushed.len()]);
                }
            }
            assert(spec_all_glyph_chars(Seq::<char>::empty()));
        } else if c.len() == 0 {
        } else if c.len() + 1 + word.len() <= max_columns {
            let joined = c + seq![' '] + word;
            assert forall|k: int| 0 <= k < joined.len() implies spec_is_glyph_char(#[trigger] joined[k]) by {
                if k < c.len() {
                    assert(joined[k] == c[k]);
                } else if k == c.len() {
                    assert(joined[k] == ' ');
                } else {
                    assert(joined[k] == word[k - c.len() - 1]);
                }
            }
        } else {
            let result = o.push(c);
            assert forall|i: int| 0 <= i < result.len() implies spec_all_glyph_chars(#[trigger] result[i]) by {
                if i < o.len() {
                    assert(result[i] == o[i]);
                }
            }
        }
    }
}

proof fn lemma_wrap_lines_glyph_chars(lines: Seq<Seq<char>>, max_columns: int)
    requires
        spec_lines_glyph_chars(lines),
    ensures
        spec_lines_glyph_chars(spec_wrap_lines(lines, max_columns)),
    decreases lines.len(),
{
    if lines.len() > 0 {
        assert(spec_lines_glyph_chars(lines.drop_last()));
        lemma_wrap_lines_glyph_chars(lines.drop_last(), max_columns);
        let before = spec_wrap_lines(lines.drop_last(), max_columns);
        assert(spec_all_glyph_chars(lines.last()));
        lemma_split_glyph_chars(lines.last());
        let words = spec_split_whitespace(lines.last());
        lemma_wrap_words_glyph_chars(before, words, max_columns);
        let (o, c) = spec_wrap_words(before, words, max_columns);
        if c.len() > 0 {
            let result = o.push(c);
            assert forall|i: int| 0 <= i < result.len() implies spec_all_glyph_chars(#[trigger] result[i]) by {
                if i < o.len() {
                    assert(result[i] == o[i]);
                }
            }
        }
    }
}

/// Every character of a wrapped message is one the block font draws: the
/// message is sanitized before it is wrapped, and wrapping only adds spaces.
pub proof fn lemma_wrapped_message_glyph_chars(message: Seq<char>, max_columns: int)
    ensures
        forall|i: int, k: int|
            0 <= i < spec_wrap_diagnostic_message(message, max_columns).len() && 0 <= k
                < spec_wrap_diagnostic_message(message, max_columns)[i].len() ==> spec_is_glyph_char(
                #[trigger] spec_wrap_diagnostic_message(message, max_columns)[i][k],
            ),
{
    lemma_sanitized_glyph_chars(message);
    lemma_lines_glyph_chars(spec_sanitize_message(message));
    lemma_wrap_lines_glyph_chars(spec_lines(spec_sanitize_message(message)), max_columns);
    reveal_strlit("NO DIAGNOSTIC MESSAGE");
    let fallback = spec_no_message_line();
    assert(spec_all_glyph_chars(fallback));
    let wrapped = spec_wrap_diagnostic_message(message, max_columns);
    assert(spec_lines_glyph_chars(wrapped));
    assert forall|i: int, k: int| 0 <= i < wrapped.len() && 0 <= k < wrapped[i].len() implies spec_is_glyph_char(
        #[trigger] wrapped[i][k],
    ) by {
        assert(spec_all_glyph_chars(wrapped[i]));
    }
}

/// Whether a character is not white space.
pub open spec fn spec_is_not_whitespace() -> spec_fn(char) -> bool {
    |c: char| !spec_is_whitespace(c)
}

/// `text` with its white space removed.
pub open spec fn spec_without_whitespace(text: Seq<char>) -> Seq<char> {
    text.filter(spec_is_not_whitespace())
}

/// The characters of `lines`, one line after the other, white space removed.
pub open spec fn spec_lines_text(lines: Seq<Seq<char>>) -> Seq<char>
    decreases lines.len(),
{
    if lines.len() == 0 {
        Seq::empty()
    } else {
        spec_lines_text(lines.drop_last()) + spec_without_whitespace(lines.last())
    }
}

proof fn lemma_without_whitespace_add(a: Seq<char>, b: Seq<char>)
    ensures
        spec_without_whitespace(a + b) == spec_without_whitespace(a) + spec_without_whitespace(b),
{
    Seq::filter_distributes_over_add(a, b, spec_is_not_whitespace());
}

proof fn lemma_without_whitespace_push(a: Seq<char>, c: char)
    ensures
        spec_without_whitespace(a.push(c)) == if spec_is_whitespace(c) {
            spec_without_whitespace(a)
        } else {
            spec_without_whitespace(a).push(c)
        },
{
    reveal(Seq::filter);
    assert(a.push(c).drop_last() =~= a);
}

proof fn lemma_without_whitespace_empty()
    ensures
        spec_without_whitespace(Seq::<char>::empty()) == Seq::<char>::empty(),
{
    reveal(Seq::filter);
}

proof fn lemma_lines_text_add(a: Seq<Seq<char>>, b: Seq<Seq<char>>)
    ensures
        spec_lines_text(a + b) == spec_lines_text(a) + spec_lines_text(b),
    decreases b.len(),
{
    if b.len() == 0 {
        assert(a + b =~= a);
    } else {
        lemma_lines_text_add(a, b.drop_last());
        assert((a + b).drop_last() =~= a + b.drop_last());
        assert((a + b).last() == b.last());
    }
}

proof fn lemma_lines_text_push(a: Seq<Seq<char>>, line: Seq<char>)
    ensures
        spec_lines_text(a.push(line)) == spec_lines_text(a) + spec_without_whitespace(line),
{
    assert(a.push(line).drop_last() =~= a);
}

proof fn lemma_split_state_text(s: Seq<char>)
    ensures
        spec_lines_text(spec_split_whitespace_state(s).0) + spec_without_whitespace(
            spec_split_whitespace_state(s).1,
        ) == spec_without_whitespace(s),
    decreases s.len(),
{
    if s.len() == 0 {
        lemma_without_whitespace_empty();
        assert(Seq::<char>::empty() + Seq::<char>::empty() =~= Seq::<char>::empty());
    } else {
        let prev = s.drop_last();
        let c = s.last();
        lemma_split_state_text(prev);
        assert(s =~= prev.push(c));
        lemma_without_whitespace_push(prev, c);
        let (words, current) = spec_split_whitespace_state(prev);
        lemma_without_whitespace_empty();
        if spec_is_whitespace(c) {
            if current.len() > 0 {
                lemma_lines_text_push(words, current);
            } else {
                assert(current =~= Seq::<char>::empty());
            }
            assert(spec_lines_text(spec_split_whitespace_state(s).0) + Seq::<char>::empty()
                =~= spec_lines_text(spec_split_whitespace_state(s).0));
        } else {
            lemma_without_whitespace_push(current, c);
        }
    }
}

proof fn lemma_split_text(s: Seq<char>)
    ensures
        spec_lines_text(spec_split_whitespace(s)) == spec_without_whitespace(s),
{
    lemma_split_state_text(s);
    let (words, current) = spec_split_whitespace_state(s);
    if current.len() > 0 {
        lemma_lines_text_push(words, current);
    } else {
        assert(current =~= Seq::<char>::empty());
        lemma_without_whitespace_empty();
        assert(spec_lines_text(words) + Seq::<char>::empty() =~= spec_lines_text(words));
    }
}

proof fn lemma_lines_state_text(s: Seq<char>)
    ensures
        spec_lines_text(spec_lines_state(s).0) + spec_without_whitespace(spec_lines_state(s).1)
            == spec_without_whitespace(s),
    decreases s.len(),
{
    if s.len() == 0 {
        lemma_without_whitespace_empty();
        assert(Seq::<char>::empty() + Seq::<char>::empty() =~= Seq::<char>::empty());
    } else {
        let prev = s.drop_last();
        let c = s.last();
        lemma_lines_state_text(prev);
        assert(s =~= prev.push(c));
        lemma_without_whitespace_push(prev, c);
        let (lines, current) = spec_lines_state(prev);
        lemma_without_whitespace_empty();
        if c == '\n' {
            assert(spec_is_whitespace(c));
            let stripped = spec_strip_cr(current);
            if current.len() > 0 && current.last() == '\r' {
                assert(current =~= stripped.push('\r'));
                assert(spec_is_whitespace('\r'));
                lemma_without_whitespace_push(stripped, '\r');
            }
            lemma_lines_text_push(lines, stripped);
            assert(spec_lines_text(spec_lines_state(s).0) + Seq::<char>::empty()
                =~= spec_lines_text(spec_lines_state(s).0));
        } else {
            lemma_without_whitespace_push(current, c);
            if spec_is_whitespace(c) {
            }
        }
    }
}

proof fn lemma_lines_text_of_lines(s: Seq<char>)
    ensures
        spec_lines_text(spec_lines(s)) == spec_without_whitespace(s),
{
    lemma_lines_state_text(s);
    let (lines, current) = spec_lines_state(s);
    if current.len() > 0 {
        lemma_lines_text_push(lines, current);
    } else {
        assert(current =~= Seq::<char>::empty());
        lemma_without_whitespace_empty();
        assert(spec_lines_text(lines) + Seq::<char>::empty() =~= spec_lines_text(lines));
    }
}

proof fn lemma_chunks_text(word: Seq<char>, size: int)
    requires
        size >= 1,
    ensures
        spec_lines_text(spec_chunks(word, size)) == spec_without_whitespace(word),
    decreases word.len(),
{
    if word.len() == 0 {
        lemma_without_whitespace_empty();
        assert(word =~= Seq::<char>::empty());
    } else if word.len() <= size {
        lemma_lines_text_push(Seq::<Seq<char>>::empty(), word);
        assert(Seq::<Seq<char>>::empty().push(word) =~= seq![word]);
        assert(Seq::<char>::empty() + spec_without_whitespace(word) =~= spec_without_whitespace(word));
    } else {
        let rest = word.skip(size);
        let first = word.take(size);
        lemma_chunks_text(rest, size);
        lemma_lines_text_add(seq![first], spec_chunks(rest, size));
        lemma_lines_text_push(Seq::<Seq<char>>::empty(), first);
        assert(Seq::<Seq<char>>::empty().push(first) =~= seq![first]);
        assert(Seq::<char>::empty() + spec_without_whitespace(first) =~= spec_without_whitespace(first));
        assert(word =~= word.take(size) + rest);
        lemma_without_whitespace_add(word.take(size), rest);
    }
}

proof fn lemma_wrap_word_text(out: Seq<Seq<char>>, current: Seq<char>, word: Seq<char>, max_columns: int)
    ensures
        ({
            let (o, c) = spec_wrap_word(out, current, word, max_columns);
            spec_lines_text(o) + spec_without_whitespace(c) == spec_lines_text(out)
                + spec_without_whitespace(current) + spec_without_whitespace(word)
        }),
{
    lemma_without_whitespace_empty();
    if current.len() == 0 {
        assert(current =~= Seq::<char>::empty());
    }
    if word.len() > max_columns {
        let flushed = if current.len() == 0 {
            out
        } else {
            out.push(current)
        };
        if current.len() > 0 {
            lemma_lines_text_push(out, current);
        } else {
            assert(spec_lines_text(out) + Seq::<char>::empty() =~= spec_lines_text(out));
        }
        let size = if max_columns < 1 {
            1
        } else {
            max_columns
        };
        lemma_chunks_text(word, size);
        lemma_lines_text_add(flushed, spec_chunks(word, size));
        assert(spec_lines_text(flushed + spec_chunks(word, size)) + Seq::<char>::empty()
            =~= spec_lines_text(flushed + spec_chunks(word, size)));
    } else if current.len() == 0 {
        assert(spec_lines_text(out) + Seq::<char>::empty() =~= spec_lines_text(out));
    } else if current.len() + 1 + word.len() <= max_columns {
        lemma_without_whitespace_push(current, ' ');
        assert(spec_is_whitespace(' '));
        lemma_without_whitespace_add(current.push(' '), word);
        assert(current + seq![' '] + word =~= current.push(' ') + word);
        assert(spec_lines_text(out) + (spec_without_whitespace(current) + spec_without_whitespace(word))
            =~= spec_lines_text(out) + spec_without_whitespace(current) + spec_without_whitespace(word));
    } else {
        lemma_lines_text_push(out, current);
    }
}

proof fn lemma_wrap_words_text(out: Seq<Seq<char>>, words: Seq<Seq<char>>, max_columns: int)
    ensures
        ({
            let (o, c) = spec_wrap_words(out, words, max_columns);
            spec_lines_text(o) + spec_without_whitespace(c) == spec_lines_text(out) + spec_lines_text(
                words,
            )
        }),
    decreases words.len(),
{
    lemma_without_whitespace_empty();
    if words.len() == 0 {
        assert(spec_lines_text(out) + Seq::<char>::empty() =~= spec_lines_text(out));
    } else {
        lemma_wrap_words_text(out, words.drop_last(), max_columns);
        let (o, c) = spec_wrap_words(out, words.drop_last(), max_columns);
        lemma_wrap_word_text(o, c, words.last(), max_columns);
        assert(spec_lines_text(out) + spec_lines_text(words.drop_last()) + spec_without_whitespace(
            words.last(),
        ) =~= spec_lines_text(out) + (spec_lines_text(words.drop_last()) + spec_without_whitespace(
            words.last(),
        )));
    }
}

proof fn lemma_wrap_lines_text(lines: Seq<Seq<char>>, max_columns: int)
    ensures
        spec_lines_text(spec_wrap_lines(lines, max_columns)) == spec_lines_text(lines),
    decreases lines.len(),
{
    if lines.len() > 0 {
        lemma_wrap_lines_text(lines.drop_last(), max_columns);
        let before = spec_wrap_lines(lines.drop_last(), max_columns);
        let words = spec_split_whitespace(lines.last());
        lemma_split_text(lines.last());
        lemma_wrap_words_text(before, words, max_columns);
        let (o, c) = spec_wrap_words(before, words, max_columns);
        lemma_without_whitespace_empty();
        if c.len() > 0 {
            lemma_lines_text_push(o, c);
        } else {
            assert(c =~= Seq::<char>::empty());
            assert(spec_lines_text(o) + Seq::<char>::empty() =~= spec_lines_text(o));
        }
    }
}

proof fn lemma_split_state_no_whitespace(s: Seq<char>)
    ensures
        forall|i: int, k: int|
            0 <= i < spec_split_whitespace_state(s).0.len() && 0 <= k
                < spec_split_whitespace_state(s).0[i].len() ==> !spec_is_whitespace(
                #[trigger] spec_split_whitespace_state(s).0[i][k],
            ),
        forall|k: int|
            0 <= k < spec_split_whitespace_state(s).1.len() ==> !spec_is_whitespace(
                #[trigger] spec_split_whitespace_state(s).1[k],
            ),
    decreases s.len(),
{
    if s.len() > 0 {
        lemma_split_state_no_whitespace(s.drop_last());
        let (words, current) = spec_split_whitespace_state(s.drop_last());
        let next = spec_split_whitespace_state(s);
        assert forall|i: int, k: int| 0 <= i < next.0.len() && 0 <= k < next.0[i].len() implies !spec_is_whitespace(
            #[trigger] next.0[i][k],
        ) by {
            if i < words.len() {
                assert(next.0[i] == words[i]);
            } else {
                assert(next.0[i] == current);
            }
        }
        assert forall|k: int| 0 <= k < next.1.len() implies !spec_is_whitespace(#[trigger] next.1[k]) by {
            if k < current.len() {
                assert(next.1[k] == current[k]);
            }
        }
    }
}

proof fn lemma_no_whitespace_kept(text: Seq<char>)
    requires
        forall|k: int| 0 <= k < text.len() ==> !spec_is_whitespace(#[trigger] text[k]),
    ensures
        spec_without_whitespace(text) == text,
    decreases text.len(),
{
    if text.len() == 0 {
        lemma_without_whitespace_empty();
        assert(text =~= Seq::<char>::empty());
    } else {
        let prev = text.drop_last();
        assert forall|k: int| 0 <= k < prev.len() implies !spec_is_whitespace(#[trigger] prev[k]) by {
            assert(prev[k] == text[k]);
        }
        lemma_no_whitespace_kept(prev);
        assert(!spec_is_whitespace(text[text.len() - 1]));
        lemma_without_whitespace_push(prev, text.last());
        assert(prev.push(text.last()) =~= text);
    }
}

proof fn lemma_blank_line_has_no_words(line: Seq<char>)
    requires
        spec_without_whitespace(line).len() == 0,
    ensures
        spec_split_whitespace(line).len() == 0,
{
    let words = spec_split_whitespace(line);
    if words.len() > 0 {
        lemma_split_text(line);
        lemma_split_state_no_whitespace(line);
        lemma_split_whitespace_nonempty(line);
        let (done, current) = spec_split_whitespace_state(line);
        let last = words.last();
        assert forall|k: int| 0 <= k < last.len() implies !spec_is_whitespace(#[trigger] last[k]) by {
            if current.len() > 0 {
                assert(last == current);
            } else {
                assert(last == done[done.len() - 1]);
            }
        }
        lemma_no_whitespace_kept(last);
        assert(spec_lines_text(words) == spec_lines_text(words.drop_last()) + last);
    }
}

proof fn lemma_blank_lines_wrap_to_nothing(lines: Seq<Seq<char>>, max_columns: int)
    requires
        spec_lines_text(lines).len() == 0,
    ensures
        spec_wrap_lines(lines, max_columns).len() == 0,
    decreases lines.len(),
{
    if lines.len() > 0 {
        let last = lines.last();
        assert(spec_lines_text(lines) == spec_lines_text(lines.drop_last()) + spec_without_whitespace(last));
        lemma_wrap_lines_text(lines.drop_last(), max_columns);
        lemma_blank_lines_wrap_to_nothing(lines.drop_last(), max_columns);
        lemma_blank_line_has_no_words(last);
        let before = spec_wrap_lines(lines.drop_last(), max_columns);
        assert(spec_wrap_words(before, spec_split_whitespace(last), max_columns) == (
            before,
            Seq::<char>::empty(),
        ));
    }
}

/// Wrapping loses no text: where the shown message has any character other
/// than white space, the wrapped lines, read one after the other with their
/// white space removed, are exactly the shown message (its first 320
/// characters as the block font shows them) with its white space removed;
/// a message with nothing but white space to show becomes the single line
/// `NO DIAGNOSTIC MESSAGE`.
pub proof fn lemma_wrapped_message_keeps_text(message: Seq<char>, max_columns: int)
    ensures
        spec_without_whitespace(spec_sanitize_message(message)).len() > 0 ==> spec_lines_text(
            spec_wrap_diagnostic_message(message, max_columns),
        ) == spec_without_whitespace(spec_sanitize_message(message)),
        spec_without_whitespace(spec_sanitize_message(message)).len() == 0
            ==> spec_wrap_diagnostic_message(message, max_columns) == seq![spec_no_message_line()],
{
    let sanitized = spec_sanitize_message(message);
    let lines = spec_lines(sanitized);
    lemma_lines_text_of_lines(sanitized);
    lemma_wrap_lines_text(lines, max_columns);
    let out = spec_wrap_lines(lines, max_columns);
    if out.len() == 0 {
        assert(spec_lines_text(out) == Seq::<char>::empty());
    }
    if spec_without_whitespace(sanitized).len() == 0 {
        lemma_blank_lines_wrap_to_nothing(lines, max_columns);
    }
}

/// Character and line grid of the software screen, in font pixels.
struct DiagnosticLineGrid {
    char_advance: u32,
    line_advance: u32,
    horizontal_padding: u32,
    vertical_padding: u32,
}

/// `a - b`, or 0 where `b` is larger.
pub open spec fn spec_saturating_sub(a: int, b: int) -> int {
    if a > b {
        a - b
    } else {
        0
    }
}

/// The larger of two integers.
pub open spec fn spec_max(a: int, b: int) -> int {
    if a > b {
        a
    } else {
        b
    }
}

/// The character sequences of a list of strings.
pub open spec fn spec_str_lines(lines: Seq<&str>) -> Seq<Seq<char>> {
    lines.map_values(|line: &str| line@)
}

/// The lines of a diagnostic screen on a `width` x `height` surface: the
/// header lines, an empty line and the wrapped message, cut to the number of
/// lines that fit. With `char_advance` and `line_advance` in font pixels and
/// the paddings in surface pixels, as many columns fit as character cells in
/// the padded width (at least 8), and as many lines as line cells in the
/// padded height (at least 1).
pub open spec fn spec_diagnostic_lines(
    width: u32,
    height: u32,
    headers: Seq<Seq<char>>,
    message: Seq<char>,
    char_advance: int,
    line_advance: int,
    horizontal_padding: int,
    vertical_padding: int,
) -> Seq<Seq<char>> {
    let scale = spec_diagnostic_pixel_scale(width, height) as int;
    let max_columns = spec_max(
        spec_saturating_sub(width as int, horizontal_padding) / spec_max(char_advance * scale, 1),
        8,
    );
    let max_lines = spec_max(
        spec_saturating_sub(height as int, vertical_padding) / spec_max(line_advance * scale, 1),
        1,
    );
    let all = headers.push(Seq::empty()) + spec_wrap_diagnostic_message(message, max_columns);
    if all.len() <= max_lines {
        all
    } else {
        all.take(max_lines)
    }
}

fn diagnostic_lines(
    width: u32,
    height: u32,
    header_lines: &[&str],
    message: &str,
    grid: DiagnosticLineGrid,
) -> (lines: Vec<Vec<char>>)
    requires
        grid.char_advance * 4 <= u32::MAX,
        grid.line_advance * 4 <= u32::MAX,
    ensures
        spec_char_lines(lines@) == spec_diagnostic_lines(
            width,
            height,
            spec_str_lines(header_lines@),
            message@,
            grid.char_advance as int,
            grid.line_advance as int,
            grid.horizontal_padding as int,
            grid.vertical_padding as int,
        ),
{
    let scale = diagnostic_pixel_scale(width, height);
    assert(grid.char_advance * scale <= grid.char_advance * 4) by (nonlinear_arith)
        requires
            scale <= 4,
    ;
    assert(grid.line_advance * scale <= grid.line_advance * 4) by (nonlinear_arith)
        requires
            scale <= 4,
    ;
    let char_advance = grid.char_advance * scale;
    let line_advance = grid.line_advance * scale;
    let column_cells = width.saturating_sub(grid.horizontal_padding) / if char_advance > 1 {
        char_advance
    } else {
        1
    };
    let max_columns = if column_cells > 8 {
        column_cells
    } else {
        8
    };
    let line_cells = height.saturating_sub(grid.vertical_padding) / if line_advance > 1 {
        line_advance
    } else {
        1
    };
    let max_lines = if line_cells > 1 {
        line_cells
    } else {
        1
    };
    let ghost headers = spec_str_lines(header_lines@);
    let mut lines: Vec<Vec<char>> = Vec::new();
    let mut i: usize = 0;
    while i < header_lines.len()
        invariant
            i <= header_lines@.len(),
            headers == spec_str_lines(header_lines@),
            spec_char_lines(lines@) == headers.take(i as int),
        decreases header_lines.len() - i,
    {
        let line = str_chars(header_lines[i]);
        let ghost before = spec_char_lines(lines@);
        lines.push(line);
        i = i + 1;
        assert(spec_char_lines(lines@) =~= before.push(line@));
        assert(headers.take(i as int) =~= headers.take(i - 1).push(line@));
    }
    assert(headers.take(i as int) =~= headers);
    let ghost before_blank = spec_char_lines(lines@);
    lines.push(Vec::new());
    assert(spec_char_lines(lines@) =~= before_blank.push(Seq::empty()));
    let mut wrapped = wrap_message_chars(message, max_columns as usize);
    let ghost with_blank = spec_char_lines(lines@);
    let ghost wrapped_lines = spec_char_lines(wrapped@);
    lines.append(&mut wrapped);
    assert(spec_char_lines(lines@) =~= with_blank + wrapped_lines);
    let ghost all = spec_char_lines(lines@);
    lines.truncate(max_lines as usize);
    assert(spec_char_lines(lines@) =~= if all.len() <= max_lines {
        all
    } else {
        all.take(max_lines as int)
    });
    lines
}

/// The row mix of the background gradient: 0 at the top row, 255 at the
/// bottom row of a surface `height` rows high.
pub open spec fn spec_gradient_mix(row: int, height: int) -> u32 {
    ((row * 255) / spec_max(height - 1, 1)) as u32
}

/// A `width` x `height` surface filled with the vertical background gradient.
pub open spec fn spec_gradient_background(width: int, height: int) -> Seq<u32> {
    Seq::new(
        (width * height) as nat,
        |i: int| spec_lerp_xrgb(XRGB_SOFTWARE_BG_TOP, XRGB_SOFTWARE_BG_BOTTOM, spec_gradient_mix(i / width, height)),
    )
}

/// The width of the progress bar's extent: `frame_index` (truncated to 32
/// bits) modulo the width, at least 1.
pub open spec fn spec_progress_extent(frame_index: u64, width: u32) -> int {
    let m = ((frame_index as u32) % width) as int;
    if m < 1 {
        1
    } else {
        m
    }
}

/// The software diagnostic screen: a gradient background, a four-pixel border,
/// a progress bar whose width follows `frame_index`, then the header lines in
/// the header color and the wrapped message in the dim color, from 12/16.
/// A zero-sized surface gives an empty framebuffer.
pub open spec fn spec_software_diagnostic_frame(
    width: u32,
    height: u32,
    frame_index: u64,
    headers: Seq<Seq<char>>,
    message: Seq<char>,
) -> Seq<u32> {
    if width == 0 || height == 0 {
        Seq::empty()
    } else {
        let w = width as int;
        let h = height as int;
        let background = spec_gradient_background(w, h);
        let top = spec_fill_rect(background, w, h, 0, 0, w, 4, XRGB_SOFTWARE_BORDER);
        let bottom = spec_fill_rect(top, w, h, 0, spec_saturating_sub(h, 4), w, 4, XRGB_SOFTWARE_BORDER);
        let left = spec_fill_rect(bottom, w, h, 0, 0, 4, h, XRGB_SOFTWARE_BORDER);
        let right = spec_fill_rect(left, w, h, spec_saturating_sub(w, 4), 0, 4, h, XRGB_SOFTWARE_BORDER);
        let bar = spec_fill_rect(
            right,
            w,
            h,
            8,
            spec_saturating_sub(h, 14),
            spec_saturating_sub(spec_progress_extent(frame_index, width), 8),
            6,
            XRGB_SOFTWARE_BAR,
        );
        let lines = spec_diagnostic_lines(width, height, headers, message, 6, 9, 24, 32);
        spec_draw_lines(bar, w, h, lines, 0, headers.len() as int, 16, spec_diagnostic_pixel_scale(width, height) as int)
    }
}

fn gradient_background(width: u32, height: u32) -> (pixels: Vec<u32>)
    requires
        width > 0,
        height > 0,
        (height - 1) * 255 <= u32::MAX,
        width * height <= usize::MAX,
    ensures
        pixels@ == spec_gradient_background(width as int, height as int),
{
    let ghost w = width as int;
    let ghost h = height as int;
    let divisor: u32 = if height - 1 > 1 {
        height - 1
    } else {
        1
    };
    let mut pixels: Vec<u32> = Vec::new();
    let mut row: u32 = 0;
    while row < height
        invariant
            w == width,
            h == height,
            width > 0,
            row <= height,
            (height - 1) * 255 <= u32::MAX,
            width * height <= usize::MAX,
            divisor as int == spec_max(h - 1, 1),
            pixels@.len() == row * w,
            forall|i: int| 0 <= i < pixels@.len() ==> #[trigger] pixels@[i] == spec_lerp_xrgb(
                XRGB_SOFTWARE_BG_TOP,
                XRGB_SOFTWARE_BG_BOTTOM,
                spec_gradient_mix(i / w, h),
            ),
        decreases height - row,
    {
        assert(row * 255 <= (height - 1) * 255) by (nonlinear_arith)
            requires
                row < height,
        ;
        let mix = row * 255 / divisor;
        let color = lerp_xrgb(XRGB_SOFTWARE_BG_TOP, XRGB_SOFTWARE_BG_BOTTOM, mix);
        proof {
            lemma_row_end(w, h, row as int);
        }
        let mut col: u32 = 0;
        while col < width
            invariant
                w == width,
                h == height,
                width > 0,
                row < height,
                col <= width,
                divisor as int == spec_max(h - 1, 1),
                mix == spec_gradient_mix(row as int, h),
                color == spec_lerp_xrgb(XRGB_SOFTWARE_BG_TOP, XRGB_SOFTWARE_BG_BOTTOM, mix),
                row * w + w <= w * h,
                width * height <= usize::MAX,
                pixels@.len() == row * w + col,
                forall|i: int| 0 <= i < pixels@.len() ==> #[trigger] pixels@[i] == spec_lerp_xrgb(
                    XRGB_SOFTWARE_BG_TOP,
                    XRGB_SOFTWARE_BG_BOTTOM,
                    spec_gradient_mix(i / w, h),
                ),
            decreases width - col,
        {
            proof {
                lemma_pixel_coordinates(w, row as int, col as int);
            }
            pixels.push(color);
            col = col + 1;
        }
        row = row + 1;
        assert(pixels@.len() == row * w) by (nonlinear_arith)
            requires
                pixels@.len() == (row - 1) * w + w,
        ;
    }
    assert(pixels@.len() == w * h) by (nonlinear_arith)
        requires
            pixels@.len() == row * w,
            row == h,
    ;
    assert(pixels@ =~= spec_gradient_background(w, h));
    pixels
}

/// Renders a visible XRGB8888 diagnostic screen into `framebuffer`, resized to
/// `width * height` pixels (emptied when either is zero): a gradient
/// background, a border, a progress bar driven by `frame_index`, the header
/// lines and the wrapped message in the block font.
pub fn render_software_diagnostic_xrgb8888_frame(
    framebuffer: &mut Vec<u32>,
    width: u32,
    height: u32,
    frame_index: u64,
    header_lines: &[&str],
    message: &str,
)
    requires
        height > 0 ==> (height - 1) * 255 <= u32::MAX,
        width * height <= usize::MAX,
    ensures
        final(framebuffer)@ == spec_software_diagnostic_frame(
            width,
            height,
            frame_index,
            spec_str_lines(header_lines@),
            message@,
        ),
{
    if width == 0 || height == 0 {
        framebuffer.clear();
        return;
    }
    let background = gradient_background(width, height);
    let mut surface = SoftwareDiagnosticSurface::new(background, width, height);
    surface.fill_rect(0, 0, width, 4, XRGB_SOFTWARE_BORDER);
    surface.fill_rect(0, height.saturating_sub(4), width, 4, XRGB_SOFTWARE_BORDER);
    surface.fill_rect(0, 0, 4, height, XRGB_SOFTWARE_BORDER);
    surface.fill_rect(width.saturating_sub(4), 0, 4, height, XRGB_SOFTWARE_BORDER);
    let extent = (frame_index as u32) % width;
    let bar_width = if extent < 1 {
        1
    } else {
        extent
    };
    surface.fill_rect(8, height.saturating_sub(14), bar_width.saturating_sub(8), 6, XRGB_SOFTWARE_BAR);
    let lines = diagnostic_lines(
        width,
        height,
        header_lines,
        message,
        DiagnosticLineGrid {
            char_advance: 6,
            line_advance: 9,
            horizontal_padding: 24,
            vertical_padding: 32,
        },
    );
    let scale = diagnostic_pixel_scale(width, height);
    let line_advance = 9 * scale;
    let ghost all_lines = spec_char_lines(lines@);
    let ghost header_count = header_lines@.len() as int;
    let ghost w = width as int;
    let ghost h = height as int;
    let ghost start = surface.framebuffer@;
    let mut y: u32 = 16;
    let mut index: usize = 0;
    assert(all_lines.skip(0) =~= all_lines);
    while index < lines.len()
        invariant
            surface.wf(),
            surface.width as int == w,
            surface.height as int == h,
            index <= lines@.len(),
            all_lines == spec_char_lines(lines@),
            header_count == header_lines@.len(),
            2 <= scale <= 4,
            line_advance == 9 * scale,
            spec_draw_lines(start, w, h, all_lines, 0, header_count, 16, scale as int) == spec_draw_lines(
                surface.framebuffer@,
                w,
                h,
                all_lines.skip(index as int),
                index as int,
                header_count,
                y as int,
                scale as int,
            ),
        decreases lines.len() - index,
    {
        proof {
            assert(all_lines.skip(index as int).drop_first() =~= all_lines.skip(index + 1));
            assert(all_lines.skip(index as int)[0] == lines@[index as int]@);
        }
        let color = if index < header_lines.len() {
            XRGB_SOFTWARE_TEXT
        } else {
            XRGB_SOFTWARE_DIM_TEXT
        };
        surface.draw_text(12, y, scale, lines[index].as_slice(), color);
        y = y.saturating_add(line_advance);
        index = index + 1;
    }
    proof {
        assert(all_lines.skip(index as int) =~= Seq::<Seq<char>>::empty());
    }
    *framebuffer = surface.framebuffer;
}

/// A `width` x `height` XRGB8888 framebuffer being drawn on.
struct SoftwareDiagnosticSurface {
    framebuffer: Vec<u32>,
    width: u32,
    height: u32,
}

impl SoftwareDiagnosticSurface {
    spec fn wf(&self) -> bool {
        &&& self.width > 0
        &&& self.height > 0
        &&& self.framebuffer@.len() == self.width * self.height
    }

    fn new(framebuffer: Vec<u32>, width: u32, height: u32) -> (surface: Self)
        requires
            width > 0,
            height > 0,
            framebuffer@.len() == width * height,
        ensures
            surface.wf(),
            surface.framebuffer@ == framebuffer@,
            surface.width == width,
            surface.height == height,
    {
        SoftwareDiagnosticSurface { framebuffer, width, height }
    }

    /// Draws the glyph of `character` with its top-left corner at `(x, y)`.
    fn draw_glyph(&mut self, x: u32, y: u32, scale: u32, character: char, color: u32)
        requires
            old(self).wf(),
        ensures
            final(self).wf(),
            final(self).width == old(self).width,
            final(self).height == old(self).height,
            final(self).framebuffer@ == spec_draw_glyph(
                old(self).framebuffer@,
                old(self).width as int,
                old(self).height as int,
                character,
                x as int,
                y as int,
                scale as int,
                color,
            ),
    {
        let rows = diagnostic_glyph_rows(character);
        let ghost w = self.width as int;
        let ghost h = self.height as int;
        let ghost start = self.framebuffer@;
        let mut k: u32 = 0;
        while k < 35
            invariant
                self.wf(),
                self.width as int == w,
                self.height as int == h,
                0 <= k <= 35,
                rows@ == spec_glyph_rows(character),
                spec_draw_cells(start, w, h, rows@, 0, x as int, y as int, scale as int, color)
                    == spec_draw_cells(
                    self.framebuffer@,
                    w,
                    h,
                    rows@,
                    k as int,
                    x as int,
                    y as int,
                    scale as int,
                    color,
                ),
            decreases 35 - k,
        {
            let row_index = k / 5;
            let column = k % 5;
            let row = rows[row_index as usize];
            if row & (1u8 << (4 - column)) != 0 {
                assert(column as u64 * scale as u64 <= 4 * 0xffff_ffffu64) by (nonlinear_arith)
                    requires
                        column < 5,
                ;
                assert(row_index as u64 * scale as u64 <= 6 * 0xffff_ffffu64) by (nonlinear_arith)
                    requires
                        row_index < 7,
                ;
                let cell_x = x as u64 + column as u64 * scale as u64;
                let cell_y = y as u64 + row_index as u64 * scale as u64;
                if cell_x < self.width as u64 && cell_y < self.height as u64 {
                    self.fill_rect(cell_x as u32, cell_y as u32, scale, scale, color);
                }
            }
            k = k + 1;
        }
    }

    /// Draws `text` from `(x, y)`, one glyph every six font pixels.
    fn draw_text(&mut self, x: u32, y: u32, scale: u32, text: &[char], color: u32)
        requires
            old(self).wf(),
            scale <= 4,
        ensures
            final(self).wf(),
            final(self).width == old(self).width,
            final(self).height == old(self).height,
            final(self).framebuffer@ == spec_draw_text(
                old(self).framebuffer@,
                old(self).width as int,
                old(self).height as int,
                text@,
                x as int,
                y as int,
                scale as int,
                color,
            ),
    {
        let ghost w = self.width as int;
        let ghost h = self.height as int;
        let ghost start = self.framebuffer@;
        let mut cursor_x = x;
        let mut i: usize = 0;
        assert(text@.skip(0) =~= text@);
        while i < text.len()
            invariant
                self.wf(),
                self.width as int == w,
                self.height as int == h,
                i <= text.len(),
                scale <= 4,
                spec_draw_text(start, w, h, text@, x as int, y as int, scale as int, color)
                    == spec_draw_text(
                    self.framebuffer@,
                    w,
                    h,
                    text@.skip(i as int),
                    cursor_x as int,
                    y as int,
                    scale as int,
                    color,
                ),
            decreases text.len() - i,
        {
            proof {
                assert(text@.skip(i as int).drop_first() =~= text@.skip(i + 1));
                assert(text@.skip(i as int)[0] == text@[i as int]);
            }
            self.draw_glyph(cursor_x, y, scale, diagnostic_character(text[i]), color);
            cursor_x = cursor_x.saturating_add(6 * scale);
            i = i + 1;
        }
        proof {
            assert(text@.skip(i as int) =~= Seq::<char>::empty());
        }
    }

    /// Fills a rectangle clipped to the surface.
    fn fill_rect(&mut self, x: u32, y: u32, rect_width: u32, rect_height: u32, color: u32)
        requires
            old(self).wf(),
        ensures
            final(self).wf(),
            final(self).width == old(self).width,
            final(self).height == old(self).height,
            final(self).framebuffer@ == spec_fill_rect(
                old(self).framebuffer@,
                old(self).width as int,
                old(self).height as int,
                x as int,
                y as int,
                rect_width as int,
                rect_height as int,
                color,
            ),
    {
        if rect_width == 0 || rect_height == 0 || x >= self.width || y >= self.height {
            return;
        }
        let max_x = if x as u64 + (rect_width as u64) < self.width as u64 {
            x + rect_width
        } else {
            self.width
        };
        let max_y = if y as u64 + (rect_height as u64) < self.height as u64 {
            y + rect_height
        } else {
            self.height
        };
        let width_usize = self.width as usize;
        let len = self.framebuffer.len();
        let ghost w = self.width as int;
        let ghost h = self.height as int;
        let ghost initial = self.framebuffer@;
        let mut row = y;
        while row < max_y
            invariant
                self.wf(),
                self.width as int == w,
                self.height as int == h,
                width_usize as int == w,
                len as int == w * h,
                y <= row <= max_y <= h,
                x < max_x <= w,
                self.framebuffer@.len() == initial.len(),
                forall|i: int|
                    0 <= i < initial.len() ==> #[trigger] self.framebuffer@[i] == if spec_in_rect(
                        i,
                        w,
                        x as int,
                        y as int,
                        max_x as int,
                        row as int,
                    ) {
                        color
                    } else {
                        initial[i]
                    },
            decreases max_y - row,
        {
            proof {
                lemma_row_end(w, h, row as int);
            }
            let base = row as usize * width_usize;
            let mut col = x;
            while col < max_x
                invariant
                    self.wf(),
                    self.width as int == w,
                    self.height as int == h,
                    width_usize as int == w,
                    len as int == w * h,
                    y <= row < max_y <= h,
                    x <= col <= max_x <= w,
                    base as int == row * w,
                    base + w <= w * h,
                    self.framebuffer@.len() == initial.len(),
                    forall|i: int|
                        0 <= i < initial.len() ==> #[trigger] self.framebuffer@[i] == if spec_in_rect(
                            i,
                            w,
                            x as int,
                            y as int,
                            max_x as int,
                            row as int,
                        ) || (i / w == row && x <= i % w < col) {
                            color
                        } else {
                            initial[i]
                        },
                decreases max_x - col,
            {
                proof {
                    lemma_pixel_coordinates(w, row as int, col as int);
                }
                self.framebuffer.set(base + col as usize, color);
                col = col + 1;
                proof {
                    assert forall|i: int| 0 <= i < initial.len() implies #[trigger] self.framebuffer@[i]
                        == if spec_in_rect(i, w, x as int, y as int, max_x as int, row as int) || (i
                        / w == row && x <= i % w < col) {
                        color
                    } else {
                        initial[i]
                    } by {
                        lemma_pixel_row(w, i);
                        if i == base + col - 1 {
                        } else {
                            if i / w == row && i % w == col - 1 {
                                assert(i == row * w + (col - 1));
                            }
                        }
                    }
                }
            }
            row = row + 1;
            proof {
                assert forall|i: int| 0 <= i < initial.len() implies #[trigger] self.framebuffer@[i]
                    == if spec_in_rect(i, w, x as int, y as int, max_x as int, row as int) {
                    color
                } else {
                    initial[i]
                } by {}
            }
        }
        proof {
            let max_x_int: int = if x + rect_width < w { x + rect_width } else { w };
            let max_y_int: int = if y + rect_height < h { y + rect_height } else { h };
            assert(max_x as int == max_x_int);
            assert(max_y as int == max_y_int);
            assert(self.framebuffer@ =~= spec_fill_rect(
                initial,
                w,
                h,
                x as int,
                y as int,
                rect_width as int,
                rect_height as int,
                color,
            ));
        }
    }
}


/// Drawing took `old` to `new` without touching a pixel whose row lies
/// outside `[lo, hi)`.
pub open spec fn spec_rows_kept(old: Seq<u32>, new: Seq<u32>, width: int, lo: int, hi: int) -> bool {
    &&& new.len() == old.len()
    &&& forall|i: int|
        0 <= i < new.len() && !(lo <= i / width < hi) ==> #[trigger] new[i] == old[i]
}

proof fn lemma_fill_rect_rows(
    fb: Seq<u32>,
    width: int,
    height: int,
    x: int,
    y: int,
    rect_width: int,
    rect_height: int,
    color: u32,
)
    ensures
        spec_rows_kept(fb, spec_fill_rect(fb, width, height, x, y, rect_width, rect_height, color), width, y, y + rect_height),
        forall|i: int|
            0 <= i < fb.len() && fb[i] == color ==> #[trigger] spec_fill_rect(
                fb,
                width,
                height,
                x,
                y,
                rect_width,
                rect_height,
                color,
            )[i] == color,
{
}

proof fn lemma_draw_cells_rows(
    fb: Seq<u32>,
    width: int,
    height: int,
    rows: Seq<u8>,
    k: int,
    x: int,
    y: int,
    scale: int,
    color: u32,
)
    requires
        scale >= 0,
    ensures
        spec_rows_kept(fb, spec_draw_cells(fb, width, height, rows, k, x, y, scale, color), width, y, y + 7 * scale),
    decreases 35 - k,
{
    if k >= 35 || k < 0 {
    } else {
        let top = y + (k / 5) * scale;
        let next = if spec_cell_lit(rows, k) {
            spec_fill_rect(fb, width, height, x + (k % 5) * scale, top, scale, scale, color)
        } else {
            fb
        };
        assert(y <= top && top + scale <= y + 7 * scale) by (nonlinear_arith)
            requires
                top == y + (k / 5) * scale,
                0 <= k < 35,
                scale >= 0,
        ;
        lemma_fill_rect_rows(fb, width, height, x + (k % 5) * scale, top, scale, scale, color);
        lemma_draw_cells_rows(next, width, height, rows, k + 1, x, y, scale, color);
    }
}

proof fn lemma_draw_text_rows(
    fb: Seq<u32>,
    width: int,
    height: int,
    text: Seq<char>,
    x: int,
    y: int,
    scale: int,
    color: u32,
)
    requires
        scale >= 0,
    ensures
        spec_rows_kept(fb, spec_draw_text(fb, width, height, text, x, y, scale, color), width, y, y + 7 * scale),
    decreases text.len(),
{
    if text.len() > 0 {
        let character = spec_diagnostic_character(text[0]);
        let drawn = spec_draw_glyph(fb, width, height, character, x, y, scale, color);
        lemma_draw_cells_rows(fb, width, height, spec_glyph_rows(character), 0, x, y, scale, color);
        lemma_draw_text_rows(
            drawn,
            width,
            height,
            text.drop_first(),
            spec_saturating_add(x, 6 * scale),
            y,
            scale,
            color,
        );
    }
}

proof fn lemma_draw_lines_rows(
    fb: Seq<u32>,
    width: int,
    height: int,
    lines: Seq<Seq<char>>,
    index: int,
    header_count: int,
    y: int,
    scale: int,
)
    requires
        scale >= 0,
        y <= u32::MAX,
    ensures
        spec_rows_kept(
            fb,
            spec_draw_lines(fb, width, height, lines, index, header_count, y, scale),
            width,
            y,
            y + lines.len() * (9 * scale),
        ),
    decreases lines.len(),
{
    if lines.len() > 0 {
        let color = if index < header_count {
            XRGB_SOFTWARE_TEXT
        } else {
            XRGB_SOFTWARE_DIM_TEXT
        };
        let drawn = spec_draw_text(fb, width, height, lines[0], 12, y, scale, color);
        let next_y = spec_saturating_add(y, 9 * scale);
        let rest = lines.drop_first();
        lemma_draw_text_rows(fb, width, height, lines[0], 12, y, scale, color);
        lemma_draw_lines_rows(drawn, width, height, rest, index + 1, header_count, next_y, scale);
        assert(y <= next_y <= y + 9 * scale);
        assert(lines.len() * (9 * scale) == rest.len() * (9 * scale) + 9 * scale) by (nonlinear_arith)
            requires
                lines.len() == rest.len() + 1,
        ;
        assert(rest.len() * (9 * scale) >= 0) by (nonlinear_arith)
            requires
                scale >= 0,
        ;
    }
}

/// The software diagnostic frame has `width * height` pixels, none where
/// either side is zero, and on a surface at least 64 rows high its four top
/// and four bottom rows are in the border color.
pub proof fn lemma_software_frame_shape(
    width: u32,
    height: u32,
    frame_index: u64,
    headers: Seq<Seq<char>>,
    message: Seq<char>,
)
    ensures
        ({
            let frame = spec_software_diagnostic_frame(width, height, frame_index, headers, message);
            &&& (width == 0 || height == 0) ==> frame.len() == 0
            &&& (width > 0 && height > 0) ==> frame.len() == width * height
            &&& (width > 0 && height >= 64) ==> forall|i: int|
                0 <= i < frame.len() && (i / (width as int) < 4 || i / (width as int) >= height - 4)
                    ==> #[trigger] frame[i] == XRGB_SOFTWARE_BORDER
        }),
{
    if width > 0 && height > 0 {
        let w = width as int;
        let h = height as int;
        assert(w * h > 0) by (nonlinear_arith)
            requires
                w > 0,
                h > 0,
        ;
        let background = spec_gradient_background(w, h);
        let top = spec_fill_rect(background, w, h, 0, 0, w, 4, XRGB_SOFTWARE_BORDER);
        let bottom = spec_fill_rect(top, w, h, 0, spec_saturating_sub(h, 4), w, 4, XRGB_SOFTWARE_BORDER);
        let left = spec_fill_rect(bottom, w, h, 0, 0, 4, h, XRGB_SOFTWARE_BORDER);
        let right = spec_fill_rect(left, w, h, spec_saturating_sub(w, 4), 0, 4, h, XRGB_SOFTWARE_BORDER);
        let bar_x_extent = spec_saturating_sub(spec_progress_extent(frame_index, width), 8);
        let bar = spec_fill_rect(right, w, h, 8, spec_saturating_sub(h, 14), bar_x_extent, 6, XRGB_SOFTWARE_BAR);
        let lines = spec_diagnostic_lines(width, height, headers, message, 6, 9, 24, 32);
        let scale = spec_diagnostic_pixel_scale(width, height) as int;
        let frame = spec_draw_lines(bar, w, h, lines, 0, headers.len() as int, 16, scale);
        assert(frame == spec_software_diagnostic_frame(width, height, frame_index, headers, message));
        lemma_fill_rect_rows(background, w, h, 0, 0, w, 4, XRGB_SOFTWARE_BORDER);
        lemma_fill_rect_rows(top, w, h, 0, spec_saturating_sub(h, 4), w, 4, XRGB_SOFTWARE_BORDER);
        lemma_fill_rect_rows(bottom, w, h, 0, 0, 4, h, XRGB_SOFTWARE_BORDER);
        lemma_fill_rect_rows(left, w, h, spec_saturating_sub(w, 4), 0, 4, h, XRGB_SOFTWARE_BORDER);
        lemma_fill_rect_rows(right, w, h, 8, spec_saturating_sub(h, 14), bar_x_extent, 6, XRGB_SOFTWARE_BAR);
        lemma_draw_lines_rows(bar, w, h, lines, 0, headers.len() as int, 16, scale);
        if height >= 64 {
            let max_lines = spec_max(spec_saturating_sub(h, 32) / spec_max(9 * scale, 1), 1);
            assert(lines.len() <= max_lines);
            assert(16 + lines.len() * (9 * scale) <= h - 4) by (nonlinear_arith)
                requires
                    2 <= scale <= 4,
                    h >= 64,
                    lines.len() <= max_lines,
                    max_lines == spec_max((h - 32) / (9 * scale), 1),
            {
                let q = (h - 32) / (9 * scale);
                assert(q * (9 * scale) <= h - 32);
                if lines.len() <= q {
                    assert(lines.len() * (9 * scale) <= q * (9 * scale));
                } else {
                    assert(lines.len() <= 1);
                }
            }
            assert forall|i: int|
                0 <= i < frame.len() && (i / w < 4 || i / w >= h - 4) implies #[trigger] frame[i]
                == XRGB_SOFTWARE_BORDER by {
                lemma_pixel_row(w, i);
                assert(i / w < h) by (nonlinear_arith)
                    requires
                        i == (i / w) * w + i % w,
                        0 <= i % w,
                        i < w * h,
                        w > 0,
                ;
                assert(top[i] == XRGB_SOFTWARE_BORDER || i / w >= h - 4);
                assert(bottom[i] == XRGB_SOFTWARE_BORDER);
                assert(left[i] == XRGB_SOFTWARE_BORDER);
                assert(right[i] == XRGB_SOFTWARE_BORDER);
                assert(bar[i] == right[i]);
                assert(frame[i] == bar[i]);
            }
        }
    }
}

} // verus!
