//! The built-in bitmap font: an 8-row by 6-column monochrome glyph for
//! every supported ASCII character. Row bit `5 - col` (left to right) marks
//! a lit pixel; characters outside the table map to a fixed placeholder.

use vstd::prelude::*;

verus! {

/// The eight 6-bit row masks of the glyph for `c`.
pub open spec fn glyph_rows(c: char) -> Seq<u8> {
    match c {
        ' ' => seq![0x00u8, 0x00u8, 0x00u8, 0x00u8, 0x00u8, 0x00u8, 0x00u8, 0x00u8],
        '!' => seq![0x04u8, 0x04u8, 0x04u8, 0x04u8, 0x04u8, 0x00u8, 0x04u8, 0x00u8],
        '"' => seq![0x0Au8, 0x0Au8, 0x0Au8, 0x00u8, 0x00u8, 0x00u8, 0x00u8, 0x00u8],
        '#' => seq![0x0Au8, 0x0Au8, 0x1Fu8, 0x0Au8, 0x1Fu8, 0x0Au8, 0x0Au8, 0x00u8],
        '$' => seq![0x04u8, 0x0Fu8, 0x14u8, 0x0Eu8, 0x05u8, 0x1Eu8, 0x04u8, 0x00u8],
        '%' => seq![0x18u8, 0x19u8, 0x02u8, 0x04u8, 0x08u8, 0x13u8, 0x03u8, 0x00u8],
        '&' => seq![0x0Cu8, 0x12u8, 0x14u8, 0x08u8, 0x15u8, 0x12u8, 0x0Du8, 0x00u8],
        '\'' => seq![0x0Cu8, 0x04u8, 0x08u8, 0x00u8, 0x00u8, 0x00u8, 0x00u8, 0x00u8],
        '(' => seq![0x02u8, 0x04u8, 0x08u8, 0x08u8, 0x08u8, 0x04u8, 0x02u8, 0x00u8],
        ')' => seq![0x08u8, 0x04u8, 0x02u8, 0x02u8, 0x02u8, 0x04u8, 0x08u8, 0x00u8],
        '*' => seq![0x00u8, 0x04u8, 0x15u8, 0x0Eu8, 0x15u8, 0x04u8, 0x00u8, 0x00u8],
        '+' => seq![0x00u8, 0x04u8, 0x04u8, 0x1Fu8, 0x04u8, 0x04u8, 0x00u8, 0x00u8],
        ',' => seq![0x00u8, 0x00u8, 0x00u8, 0x00u8, 0x0Cu8, 0x04u8, 0x08u8, 0x00u8],
        '-' => seq![0x00u8, 0x00u8, 0x00u8, 0x1Fu8, 0x00u8, 0x00u8, 0x00u8, 0x00u8],
        '.' => seq![0x00u8, 0x00u8, 0x00u8, 0x00u8, 0x00u8, 0x0Cu8, 0x0Cu8, 0x00u8],
        '/' => seq![0x00u8, 0x01u8, 0x02u8, 0x04u8, 0x08u8, 0x10u8, 0x00u8, 0x00u8],
        '0' => seq![0x0Eu8, 0x11u8, 0x13u8, 0x15u8, 0x19u8, 0x11u8, 0x0Eu8, 0x00u8],
        '1' => seq![0x04u8, 0x0Cu8, 0x04u8, 0x04u8, 0x04u8, 0x04u8, 0x0Eu8, 0x00u8],
        '2' => seq![0x0Eu8, 0x11u8, 0x01u8, 0x02u8, 0x04u8, 0x08u8, 0x1Fu8, 0x00u8],
        '3' => seq![0x1Fu8, 0x02u8, 0x04u8, 0x02u8, 0x01u8, 0x11u8, 0x0Eu8, 0x00u8],
        '4' => seq![0x02u8, 0x06u8, 0x0Au8, 0x12u8, 0x1Fu8, 0x02u8, 0x02u8, 0x00u8],
        '5' => seq![0x1Fu8, 0x10u8, 0x1Eu8, 0x01u8, 0x01u8, 0x11u8, 0x0Eu8, 0x00u8],
        '6' => seq![0x06u8, 0x08u8, 0x10u8, 0x1Eu8, 0x11u8, 0x11u8, 0x0Eu8, 0x00u8],
        '7' => seq![0x1Fu8, 0x01u8, 0x02u8, 0x04u8, 0x08u8, 0x08u8, 0x08u8, 0x00u8],
        '8' => seq![0x0Eu8, 0x11u8, 0x11u8, 0x0Eu8, 0x11u8, 0x11u8, 0x0Eu8, 0x00u8],
        '9' => seq![0x0Eu8, 0x11u8, 0x11u8, 0x0Fu8, 0x01u8, 0x02u8, 0x0Cu8, 0x00u8],
        ':' => seq![0x00u8, 0x0Cu8, 0x0Cu8, 0x00u8, 0x0Cu8, 0x0Cu8, 0x00u8, 0x00u8],
        ';' => seq![0x00u8, 0x0Cu8, 0x0Cu8, 0x00u8, 0x0Cu8, 0x04u8, 0x08u8, 0x00u8],
        '<' => seq![0x02u8, 0x04u8, 0x08u8, 0x10u8, 0x08u8, 0x04u8, 0x02u8, 0x00u8],
        '=' => seq![0x00u8, 0x00u8, 0x1Fu8, 0x00u8, 0x1Fu8, 0x00u8, 0x00u8, 0x00u8],
        '>' => seq![0x08u8, 0x04u8, 0x02u8, 0x01u8, 0x02u8, 0x04u8, 0x08u8, 0x00u8],
        '?' => seq![0x0Eu8, 0x11u8, 0x01u8, 0x02u8, 0x04u8, 0x00u8, 0x04u8, 0x00u8],
        '@' => seq![0x0Eu8, 0x11u8, 0x01u8, 0x0Du8, 0x15u8, 0x15u8, 0x0Eu8, 0x00u8],
        'A' => seq![0x0Eu8, 0x11u8, 0x11u8, 0x11u8, 0x1Fu8, 0x11u8, 0x11u8, 0x00u8],
        'B' => seq![0x1Eu8, 0x11u8, 0x11u8, 0x1Eu8, 0x11u8, 0x11u8, 0x1Eu8, 0x00u8],
        'C' => seq![0x0Eu8, 0x11u8, 0x10u8, 0x10u8, 0x10u8, 0x11u8, 0x0Eu8, 0x00u8],
        'D' => seq![0x1Cu8, 0x12u8, 0x11u8, 0x11u8, 0x11u8, 0x12u8, 0x1Cu8, 0x00u8],
        'E' => seq![0x1Fu8, 0x10u8, 0x10u8, 0x1Eu8, 0x10u8, 0x10u8, 0x1Fu8, 0x00u8],
        'F' => seq![0x1Fu8, 0x10u8, 0x10u8, 0x1Eu8, 0x10u8, 0x10u8, 0x10u8, 0x00u8],
        'G' => seq![0x0Eu8, 0x11u8, 0x10u8, 0x17u8, 0x11u8, 0x11u8, 0x0Fu8, 0x00u8],
        'H' => seq![0x11u8, 0x11u8, 0x11u8, 0x1Fu8, 0x11u8, 0x11u8, 0x11u8, 0x00u8],
        'I' => seq![0x0Eu8, 0x04u8, 0x04u8, 0x04u8, 0x04u8, 0x04u8, 0x0Eu8, 0x00u8],
        'J' => seq![0x07u8, 0x02u8, 0x02u8, 0x02u8, 0x02u8, 0x12u8, 0x0Cu8, 0x00u8],
        'K' => seq![0x11u8, 0x12u8, 0x14u8, 0x18u8, 0x14u8, 0x12u8, 0x11u8, 0x00u8],
        'L' => seq![0x10u8, 0x10u8, 0x10u8, 0x10u8, 0x10u8, 0x10u8, 0x1Fu8, 0x00u8],
        'M' => seq![0x11u8, 0x1Bu8, 0x15u8, 0x15u8, 0x11u8, 0x11u8, 0x11u8, 0x00u8],
        'N' => seq![0x11u8, 0x11u8, 0x19u8, 0x15u8, 0x13u8, 0x11u8, 0x11u8, 0x00u8],
        'O' => seq![0x0Eu8, 0x11u8, 0x11u8, 0x11u8, 0x11u8, 0x11u8, 0x0Eu8, 0x00u8],
        'P' => seq![0x1Eu8, 0x11u8, 0x11u8, 0x1Eu8, 0x10u8, 0x10u8, 0x10u8, 0x00u8],
        'Q' => seq![0x0Eu8, 0x11u8, 0x11u8, 0x11u8, 0x15u8, 0x12u8, 0x0Du8, 0x00u8],
        'R' => seq![0x1Eu8, 0x11u8, 0x11u8, 0x1Eu8, 0x14u8, 0x12u8, 0x11u8, 0x00u8],
        'S' => seq![0x0Fu8, 0x10u8, 0x10u8, 0x0Eu8, 0x01u8, 0x01u8, 0x1Eu8, 0x00u8],
        'T' => seq![0x1Fu8, 0x04u8, 0x04u8, 0x04u8, 0x04u8, 0x04u8, 0x04u8, 0x00u8],
        'U' => seq![0x11u8, 0x11u8, 0x11u8, 0x11u8, 0x11u8, 0x11u8, 0x0Eu8, 0x00u8],
        'V' => seq![0x11u8, 0x11u8, 0x11u8, 0x11u8, 0x11u8, 0x0Au8, 0x04u8, 0x00u8],
        'W' => seq![0x11u8, 0x11u8, 0x11u8, 0x15u8, 0x15u8, 0x15u8, 0x0Au8, 0x00u8],
        'X' => seq![0x11u8, 0x11u8, 0x0Au8, 0x04u8, 0x0Au8, 0x11u8, 0x11u8, 0x00u8],
        'Y' => seq![0x11u8, 0x11u8, 0x11u8, 0x0Au8, 0x04u8, 0x04u8, 0x04u8, 0x00u8],
        'Z' => seq![0x1Fu8, 0x01u8, 0x02u8, 0x04u8, 0x08u8, 0x10u8, 0x1Fu8, 0x00u8],
        'a' => seq![0x00u8, 0x00u8, 0x0Eu8, 0x01u8, 0x0Fu8, 0x11u8, 0x0Fu8, 0x00u8],
        'b' => seq![0x10u8, 0x10u8, 0x16u8, 0x19u8, 0x11u8, 0x11u8, 0x1Eu8, 0x00u8],
        'c' => seq![0x00u8, 0x00u8, 0x0Eu8, 0x10u8, 0x10u8, 0x11u8, 0x0Eu8, 0x00u8],
        'd' => seq![0x01u8, 0x01u8, 0x0Du8, 0x13u8, 0x11u8, 0x11u8, 0x0Fu8, 0x00u8],
        'e' => seq![0x00u8, 0x00u8, 0x0Eu8, 0x11u8, 0x1Fu8, 0x10u8, 0x0Eu8, 0x00u8],
        'f' => seq![0x06u8, 0x09u8, 0x08u8, 0x1Cu8, 0x08u8, 0x08u8, 0x08u8, 0x00u8],
        'g' => seq![0x00u8, 0x00u8, 0x0Fu8, 0x11u8, 0x0Fu8, 0x01u8, 0x0Eu8, 0x00u8],
        'h' => seq![0x10u8, 0x10u8, 0x16u8, 0x19u8, 0x11u8, 0x11u8, 0x11u8, 0x00u8],
        'i' => seq![0x04u8, 0x00u8, 0x0Cu8, 0x04u8, 0x04u8, 0x04u8, 0x0Eu8, 0x00u8],
        'j' => seq![0x02u8, 0x00u8, 0x06u8, 0x02u8, 0x02u8, 0x12u8, 0x0Cu8, 0x00u8],
        'k' => seq![0x10u8, 0x10u8, 0x12u8, 0x14u8, 0x18u8, 0x14u8, 0x12u8, 0x00u8],
        'l' => seq![0x0Cu8, 0x04u8, 0x04u8, 0x04u8, 0x04u8, 0x04u8, 0x0Eu8, 0x00u8],
        'm' => seq![0x00u8, 0x00u8, 0x1Au8, 0x15u8, 0x15u8, 0x11u8, 0x11u8, 0x00u8],
        'n' => seq![0x00u8, 0x00u8, 0x16u8, 0x19u8, 0x11u8, 0x11u8, 0x11u8, 0x00u8],
        'o' => seq![0x00u8, 0x00u8, 0x0Eu8, 0x11u8, 0x11u8, 0x11u8, 0x0Eu8, 0x00u8],
        'p' => seq![0x00u8, 0x00u8, 0x1Eu8, 0x11u8, 0x1Eu8, 0x10u8, 0x10u8, 0x00u8],
        'q' => seq![0x00u8, 0x00u8, 0x0Du8, 0x13u8, 0x0Fu8, 0x01u8, 0x01u8, 0x00u8],
        'r' => seq![0x00u8, 0x00u8, 0x16u8, 0x19u8, 0x10u8, 0x10u8, 0x10u8, 0x00u8],
        's' => seq![0x00u8, 0x00u8, 0x0Eu8, 0x10u8, 0x0Eu8, 0x01u8, 0x1Eu8, 0x00u8],
        't' => seq![0x08u8, 0x08u8, 0x1Cu8, 0x08u8, 0x08u8, 0x09u8, 0x06u8, 0x00u8],
        'u' => seq![0x00u8, 0x00u8, 0x11u8, 0x11u8, 0x11u8, 0x13u8, 0x0Du8, 0x00u8],
        'v' => seq![0x00u8, 0x00u8, 0x11u8, 0x11u8, 0x11u8, 0x0Au8, 0x04u8, 0x00u8],
        'w' => seq![0x00u8, 0x00u8, 0x11u8, 0x11u8, 0x15u8, 0x15u8, 0x0Au8, 0x00u8],
        'x' => seq![0x00u8, 0x00u8, 0x11u8, 0x0Au8, 0x04u8, 0x0Au8, 0x11u8, 0x00u8],
        'y' => seq![0x00u8, 0x00u8, 0x11u8, 0x11u8, 0x0Fu8, 0x01u8, 0x0Eu8, 0x00u8],
        'z' => seq![0x00u8, 0x00u8, 0x1Fu8, 0x02u8, 0x04u8, 0x08u8, 0x1Fu8, 0x00u8],
        '_' => seq![0x00u8, 0x00u8, 0x00u8, 0x00u8, 0x00u8, 0x00u8, 0x1Fu8, 0x00u8],
        _ => seq![0x00u8, 0x00u8, 0x0Au8, 0x04u8, 0x0Au8, 0x00u8, 0x00u8, 0x00u8],
    }
}

/// Whether the glyph for `c` lights the pixel at `row`, `col`.
pub open spec fn glyph_bit(c: char, row: int, col: int) -> bool {
    glyph_rows(c)[row] & (1u8 << (5 - col) as u8) != 0
}

/// The glyph bitmap for one character, placeholder included.
pub fn get_char_bitmap(c: char) -> (r: [u8; 8])
    ensures
        r@ =~= glyph_rows(c),
{
    match c {
        ' ' => [0x00u8, 0x00u8, 0x00u8, 0x00u8, 0x00u8, 0x00u8, 0x00u8, 0x00u8],
        '!' => [0x04u8, 0x04u8, 0x04u8, 0x04u8, 0x04u8, 0x00u8, 0x04u8, 0x00u8],
        '"' => [0x0Au8, 0x0Au8, 0x0Au8, 0x00u8, 0x00u8, 0x00u8, 0x00u8, 0x00u8],
        '#' => [0x0Au8, 0x0Au8, 0x1Fu8, 0x0Au8, 0x1Fu8, 0x0Au8, 0x0Au8, 0x00u8],
        '$' => [0x04u8, 0x0Fu8, 0x14u8, 0x0Eu8, 0x05u8, 0x1Eu8, 0x04u8, 0x00u8],
        '%' => [0x18u8, 0x19u8, 0x02u8, 0x04u8, 0x08u8, 0x13u8, 0x03u8, 0x00u8],
        '&' => [0x0Cu8, 0x12u8, 0x14u8, 0x08u8, 0x15u8, 0x12u8, 0x0Du8, 0x00u8],
        '\'' => [0x0Cu8, 0x04u8, 0x08u8, 0x00u8, 0x00u8, 0x00u8, 0x00u8, 0x00u8],
        '(' => [0x02u8, 0x04u8, 0x08u8, 0x08u8, 0x08u8, 0x04u8, 0x02u8, 0x00u8],
        ')' => [0x08u8, 0x04u8, 0x02u8, 0x02u8, 0x02u8, 0x04u8, 0x08u8, 0x00u8],
        '*' => [0x00u8, 0x04u8, 0x15u8, 0x0Eu8, 0x15u8, 0x04u8, 0x00u8, 0x00u8],
        '+' => [0x00u8, 0x04u8, 0x04u8, 0x1Fu8, 0x04u8, 0x04u8, 0x00u8, 0x00u8],
        ',' => [0x00u8, 0x00u8, 0x00u8, 0x00u8, 0x0Cu8, 0x04u8, 0x08u8, 0x00u8],
        '-' => [0x00u8, 0x00u8, 0x00u8, 0x1Fu8, 0x00u8, 0x00u8, 0x00u8, 0x00u8],
        '.' => [0x00u8, 0x00u8, 0x00u8, 0x00u8, 0x00u8, 0x0Cu8, 0x0Cu8, 0x00u8],
        '/' => [0x00u8, 0x01u8, 0x02u8, 0x04u8, 0x08u8, 0x10u8, 0x00u8, 0x00u8],
        '0' => [0x0Eu8, 0x11u8, 0x13u8, 0x15u8, 0x19u8, 0x11u8, 0x0Eu8, 0x00u8],
        '1' => [0x04u8, 0x0Cu8, 0x04u8, 0x04u8, 0x04u8, 0x04u8, 0x0Eu8, 0x00u8],
        '2' => [0x0Eu8, 0x11u8, 0x01u8, 0x02u8, 0x04u8, 0x08u8, 0x1Fu8, 0x00u8],
        '3' => [0x1Fu8, 0x02u8, 0x04u8, 0x02u8, 0x01u8, 0x11u8, 0x0Eu8, 0x00u8],
        '4' => [0x02u8, 0x06u8, 0x0Au8, 0x12u8, 0x1Fu8, 0x02u8, 0x02u8, 0x00u8],
        '5' => [0x1Fu8, 0x10u8, 0x1Eu8, 0x01u8, 0x01u8, 0x11u8, 0x0Eu8, 0x00u8],
        '6' => [0x06u8, 0x08u8, 0x10u8, 0x1Eu8, 0x11u8, 0x11u8, 0x0Eu8, 0x00u8],
        '7' => [0x1Fu8, 0x01u8, 0x02u8, 0x04u8, 0x08u8, 0x08u8, 0x08u8, 0x00u8],
        '8' => [0x0Eu8, 0x11u8, 0x11u8, 0x0Eu8, 0x11u8, 0x11u8, 0x0Eu8, 0x00u8],
        '9' => [0x0Eu8, 0x11u8, 0x11u8, 0x0Fu8, 0x01u8, 0x02u8, 0x0Cu8, 0x00u8],
        ':' => [0x00u8, 0x0Cu8, 0x0Cu8, 0x00u8, 0x0Cu8, 0x0Cu8, 0x00u8, 0x00u8],
        ';' => [0x00u8, 0x0Cu8, 0x0Cu8, 0x00u8, 0x0Cu8, 0x04u8, 0x08u8, 0x00u8],
        '<' => [0x02u8, 0x04u8, 0x08u8, 0x10u8, 0x08u8, 0x04u8, 0x02u8, 0x00u8],
        '=' => [0x00u8, 0x00u8, 0x1Fu8, 0x00u8, 0x1Fu8, 0x00u8, 0x00u8, 0x00u8],
        '>' => [0x08u8, 0x04u8, 0x02u8, 0x01u8, 0x02u8, 0x04u8, 0x08u8, 0x00u8],
        '?' => [0x0Eu8, 0x11u8, 0x01u8, 0x02u8, 0x04u8, 0x00u8, 0x04u8, 0x00u8],
        '@' => [0x0Eu8, 0x11u8, 0x01u8, 0x0Du8, 0x15u8, 0x15u8, 0x0Eu8, 0x00u8],
        'A' => [0x0Eu8, 0x11u8, 0x11u8, 0x11u8, 0x1Fu8, 0x11u8, 0x11u8, 0x00u8],
        'B' => [0x1Eu8, 0x11u8, 0x11u8, 0x1Eu8, 0x11u8, 0x11u8, 0x1Eu8, 0x00u8],
        'C' => [0x0Eu8, 0x11u8, 0x10u8, 0x10u8, 0x10u8, 0x11u8, 0x0Eu8, 0x00u8],
        'D' => [0x1Cu8, 0x12u8, 0x11u8, 0x11u8, 0x11u8, 0x12u8, 0x1Cu8, 0x00u8],
        'E' => [0x1Fu8, 0x10u8, 0x10u8, 0x1Eu8, 0x10u8, 0x10u8, 0x1Fu8, 0x00u8],
        'F' => [0x1Fu8, 0x10u8, 0x10u8, 0x1Eu8, 0x10u8, 0x10u8, 0x10u8, 0x00u8],
        'G' => [0x0Eu8, 0x11u8, 0x10u8, 0x17u8, 0x11u8, 0x11u8, 0x0Fu8, 0x00u8],
        'H' => [0x11u8, 0x11u8, 0x11u8, 0x1Fu8, 0x11u8, 0x11u8, 0x11u8, 0x00u8],
        'I' => [0x0Eu8, 0x04u8, 0x04u8, 0x04u8, 0x04u8, 0x04u8, 0x0Eu8, 0x00u8],
        'J' => [0x07u8, 0x02u8, 0x02u8, 0x02u8, 0x02u8, 0x12u8, 0x0Cu8, 0x00u8],
        'K' => [0x11u8, 0x12u8, 0x14u8, 0x18u8, 0x14u8, 0x12u8, 0x11u8, 0x00u8],
        'L' => [0x10u8, 0x10u8, 0x10u8, 0x10u8, 0x10u8, 0x10u8, 0x1Fu8, 0x00u8],
        'M' => [0x11u8, 0x1Bu8, 0x15u8, 0x15u8, 0x11u8, 0x11u8, 0x11u8, 0x00u8],
        'N' => [0x11u8, 0x11u8, 0x19u8, 0x15u8, 0x13u8, 0x11u8, 0x11u8, 0x00u8],
        'O' => [0x0Eu8, 0x11u8, 0x11u8, 0x11u8, 0x11u8, 0x11u8, 0x0Eu8, 0x00u8],
        'P' => [0x1Eu8, 0x11u8, 0x11u8, 0x1Eu8, 0x10u8, 0x10u8, 0x10u8, 0x00u8],
        'Q' => [0x0Eu8, 0x11u8, 0x11u8, 0x11u8, 0x15u8, 0x12u8, 0x0Du8, 0x00u8],
        'R' => [0x1Eu8, 0x11u8, 0x11u8, 0x1Eu8, 0x14u8, 0x12u8, 0x11u8, 0x00u8],
        'S' => [0x0Fu8, 0x10u8, 0x10u8, 0x0Eu8, 0x01u8, 0x01u8, 0x1Eu8, 0x00u8],
        'T' => [0x1Fu8, 0x04u8, 0x04u8, 0x04u8, 0x04u8, 0x04u8, 0x04u8, 0x00u8],
        'U' => [0x11u8, 0x11u8, 0x11u8, 0x11u8, 0x11u8, 0x11u8, 0x0Eu8, 0x00u8],
        'V' => [0x11u8, 0x11u8, 0x11u8, 0x11u8, 0x11u8, 0x0Au8, 0x04u8, 0x00u8],
        'W' => [0x11u8, 0x11u8, 0x11u8, 0x15u8, 0x15u8, 0x15u8, 0x0Au8, 0x00u8],
        'X' => [0x11u8, 0x11u8, 0x0Au8, 0x04u8, 0x0Au8, 0x11u8, 0x11u8, 0x00u8],
        'Y' => [0x11u8, 0x11u8, 0x11u8, 0x0Au8, 0x04u8, 0x04u8, 0x04u8, 0x00u8],
        'Z' => [0x1Fu8, 0x01u8, 0x02u8, 0x04u8, 0x08u8, 0x10u8, 0x1Fu8, 0x00u8],
        'a' => [0x00u8, 0x00u8, 0x0Eu8, 0x01u8, 0x0Fu8, 0x11u8, 0x0Fu8, 0x00u8],
        'b' => [0x10u8, 0x10u8, 0x16u8, 0x19u8, 0x11u8, 0x11u8, 0x1Eu8, 0x00u8],
        'c' => [0x00u8, 0x00u8, 0x0Eu8, 0x10u8, 0x10u8, 0x11u8, 0x0Eu8, 0x00u8],
        'd' => [0x01u8, 0x01u8, 0x0Du8, 0x13u8, 0x11u8, 0x11u8, 0x0Fu8, 0x00u8],
        'e' => [0x00u8, 0x00u8, 0x0Eu8, 0x11u8, 0x1Fu8, 0x10u8, 0x0Eu8, 0x00u8],
        'f' => [0x06u8, 0x09u8, 0x08u8, 0x1Cu8, 0x08u8, 0x08u8, 0x08u8, 0x00u8],
        'g' => [0x00u8, 0x00u8, 0x0Fu8, 0x11u8, 0x0Fu8, 0x01u8, 0x0Eu8, 0x00u8],
        'h' => [0x10u8, 0x10u8, 0x16u8, 0x19u8, 0x11u8, 0x11u8, 0x11u8, 0x00u8],
        'i' => [0x04u8, 0x00u8, 0x0Cu8, 0x04u8, 0x04u8, 0x04u8, 0x0Eu8, 0x00u8],
        'j' => [0x02u8, 0x00u8, 0x06u8, 0x02u8, 0x02u8, 0x12u8, 0x0Cu8, 0x00u8],
        'k' => [0x10u8, 0x10u8, 0x12u8, 0x14u8, 0x18u8, 0x14u8, 0x12u8, 0x00u8],
        'l' => [0x0Cu8, 0x04u8, 0x04u8, 0x04u8, 0x04u8, 0x04u8, 0x0Eu8, 0x00u8],
        'm' => [0x00u8, 0x00u8, 0x1Au8, 0x15u8, 0x15u8, 0x11u8, 0x11u8, 0x00u8],
        'n' => [0x00u8, 0x00u8, 0x16u8, 0x19u8, 0x11u8, 0x11u8, 0x11u8, 0x00u8],
        'o' => [0x00u8, 0x00u8, 0x0Eu8, 0x11u8, 0x11u8, 0x11u8, 0x0Eu8, 0x00u8],
        'p' => [0x00u8, 0x00u8, 0x1Eu8, 0x11u8, 0x1Eu8, 0x10u8, 0x10u8, 0x00u8],
        'q' => [0x00u8, 0x00u8, 0x0Du8, 0x13u8, 0x0Fu8, 0x01u8, 0x01u8, 0x00u8],
        'r' => [0x00u8, 0x00u8, 0x16u8, 0x19u8, 0x10u8, 0x10u8, 0x10u8, 0x00u8],
        's' => [0x00u8, 0x00u8, 0x0Eu8, 0x10u8, 0x0Eu8, 0x01u8, 0x1Eu8, 0x00u8],
        't' => [0x08u8, 0x08u8, 0x1Cu8, 0x08u8, 0x08u8, 0x09u8, 0x06u8, 0x00u8],
        'u' => [0x00u8, 0x00u8, 0x11u8, 0x11u8, 0x11u8, 0x13u8, 0x0Du8, 0x00u8],
        'v' => [0x00u8, 0x00u8, 0x11u8, 0x11u8, 0x11u8, 0x0Au8, 0x04u8, 0x00u8],
        'w' => [0x00u8, 0x00u8, 0x11u8, 0x11u8, 0x15u8, 0x15u8, 0x0Au8, 0x00u8],
        'x' => [0x00u8, 0x00u8, 0x11u8, 0x0Au8, 0x04u8, 0x0Au8, 0x11u8, 0x00u8],
        'y' => [0x00u8, 0x00u8, 0x11u8, 0x11u8, 0x0Fu8, 0x01u8, 0x0Eu8, 0x00u8],
        'z' => [0x00u8, 0x00u8, 0x1Fu8, 0x02u8, 0x04u8, 0x08u8, 0x1Fu8, 0x00u8],
        '_' => [0x00u8, 0x00u8, 0x00u8, 0x00u8, 0x00u8, 0x00u8, 0x1Fu8, 0x00u8],
        _ => [0x00u8, 0x00u8, 0x0Au8, 0x04u8, 0x0Au8, 0x00u8, 0x00u8, 0x00u8],
    }
}

} // verus!
