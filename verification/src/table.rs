//! The fixed lookup table for low character codes: codes 1 through 31 name
//! digits, a few letters, punctuation and a newline. Code 0 is NUL and is
//! handled by the decoder itself, not through this table.

use vstd::prelude::*;

verus! {

/// The 31 characters named by codes 1 through 31, in code order: code `v`
/// maps to `spec_char_table()[v - 1]`.
pub open spec fn spec_char_table() -> Seq<char> {
    seq![
        '0', '1', '2', '3', '4', '5', '6', 's', 't', 'r', 'n', 'u', 'm', '(', ')', '[', ']', '<',
        '>', '%', '#', '/', ':', '-', '\'', '"', ' ', ',', '.', '!', '\n',
    ]
}

/// Looks a low code up in the fixed table.
pub fn table_char(v: u32) -> (c: char)
    requires
        1 <= v <= 31,
    ensures
        c == spec_char_table()[v - 1],
{
    let c = if v == 1 {
        '0'
    } else if v == 2 {
        '1'
    } else if v == 3 {
        '2'
    } else if v == 4 {
        '3'
    } else if v == 5 {
        '4'
    } else if v == 6 {
        '5'
    } else if v == 7 {
        '6'
    } else if v == 8 {
        's'
    } else if v == 9 {
        't'
    } else if v == 10 {
        'r'
    } else if v == 11 {
        'n'
    } else if v == 12 {
        'u'
    } else if v == 13 {
        'm'
    } else if v == 14 {
        '('
    } else if v == 15 {
        ')'
    } else if v == 16 {
        '['
    } else if v == 17 {
        ']'
    } else if v == 18 {
        '<'
    } else if v == 19 {
        '>'
    } else if v == 20 {
        '%'
    } else if v == 21 {
        '#'
    } else if v == 22 {
        '/'
    } else if v == 23 {
        ':'
    } else if v == 24 {
        '-'
    } else if v == 25 {
        '\''
    } else if v == 26 {
        '"'
    } else if v == 27 {
        ' '
    } else if v == 28 {
        ','
    } else if v == 29 {
        '.'
    } else if v == 30 {
        '!'
    } else {
        '\n'
    };
    c
}

} // verus!
