//! Rendering of hardware addresses.

use crate::error::Error;
use vstd::prelude::*;

verus! {

/// `String::push` appends the one character to the end of the string.
pub assume_specification[ String::push ](s: &mut String, ch: char)
    ensures
        final(s)@ == old(s)@.push(ch),
;

/// The character that renders the hexadecimal digit `d` in upper case.
pub open spec fn hex_digit(d: int) -> char {
    if d == 0 {
        '0'
    } else if d == 1 {
        '1'
    } else if d == 2 {
        '2'
    } else if d == 3 {
        '3'
    } else if d == 4 {
        '4'
    } else if d == 5 {
        '5'
    } else if d == 6 {
        '6'
    } else if d == 7 {
        '7'
    } else if d == 8 {
        '8'
    } else if d == 9 {
        '9'
    } else if d == 10 {
        'A'
    } else if d == 11 {
        'B'
    } else if d == 12 {
        'C'
    } else if d == 13 {
        'D'
    } else if d == 14 {
        'E'
    } else {
        'F'
    }
}

/// Whether `c` is a decimal digit or one of the letters `A` to `F`.
pub open spec fn is_upper_hex(c: char) -> bool {
    ('0' <= c && c <= '9') || ('A' <= c && c <= 'F')
}

/// The two upper-case hexadecimal digits of `byte`, high digit first.
pub open spec fn byte_hex(byte: u8) -> Seq<char> {
    seq![hex_digit(byte as int / 16), hex_digit(byte as int % 16)]
}

/// The text of a hardware address: the bytes as pairs of upper-case
/// hexadecimal digits, joined by colons.
pub open spec fn mac_text(bytes: Seq<u8>) -> Seq<char>
    decreases bytes.len(),
{
    if bytes.len() == 0 {
        Seq::empty()
    } else if bytes.len() == 1 {
        byte_hex(bytes[0])
    } else {
        mac_text(bytes.drop_last()) + seq![':'] + byte_hex(bytes.last())
    }
}

/// The hardware address shown where the platform gives none: six zero
/// bytes rendered.
pub open spec fn unknown_hw_addr() -> Seq<char> {
    mac_text(seq![0u8, 0u8, 0u8, 0u8, 0u8, 0u8])
}

/// The hardware address of an interface whose link-layer address has the
/// bytes `bytes`: their text, or the all-zero address where there are none.
pub open spec fn hw_addr_text(bytes: Seq<u8>) -> Seq<char> {
    if bytes.len() == 0 {
        unknown_hw_addr()
    } else {
        mac_text(bytes)
    }
}

/// Whether `text` is one or more pairs of upper-case hexadecimal digits
/// with a colon between each two neighbours.
pub open spec fn is_mac_shaped(text: Seq<char>) -> bool {
    &&& text.len() % 3 == 2
    &&& forall|i: int|
        0 <= i < text.len() ==> if i % 3 == 2 {
            #[trigger] text[i] == ':'
        } else {
            is_upper_hex(text[i])
        }
}

/// The text of `n` bytes, `n` at least one, has `3 n - 1` characters and the
/// shape of a hardware address.
pub proof fn lemma_mac_text_shape(bytes: Seq<u8>)
    requires
        bytes.len() > 0,
    ensures
        mac_text(bytes).len() == 3 * bytes.len() - 1,
        is_mac_shaped(mac_text(bytes)),
    decreases bytes.len(),
{
    if bytes.len() > 1 {
        lemma_mac_text_shape(bytes.drop_last());
    }
}

/// Six bytes render as seventeen characters: six pairs of upper-case
/// hexadecimal digits with five colons between them.
pub proof fn lemma_six_byte_mac(bytes: Seq<u8>)
    requires
        bytes.len() == 6,
    ensures
        mac_text(bytes).len() == 17,
        is_mac_shaped(mac_text(bytes)),
{
    lemma_mac_text_shape(bytes);
}

/// The upper-case hexadecimal digit for `nibble`.
fn hex_char(nibble: u8) -> (c: char)
    requires
        nibble < 16,
    ensures
        c == hex_digit(nibble as int),
{
    match nibble {
        0 => '0',
        1 => '1',
        2 => '2',
        3 => '3',
        4 => '4',
        5 => '5',
        6 => '6',
        7 => '7',
        8 => '8',
        9 => '9',
        10 => 'A',
        11 => 'B',
        12 => 'C',
        13 => 'D',
        14 => 'E',
        _ => 'F',
    }
}

/// Renders a hardware address: each byte as two upper-case hexadecimal
/// digits, the bytes joined by colons. No bytes give the empty string.
pub fn format_mac(bytes: &[u8]) -> (text: Result<String, Error>)
    ensures
        text matches Ok(t) && t@ == mac_text(bytes@),
{
    let mut mac = String::new();
    let mut i: usize = 0;
    while i < bytes.len()
        invariant
            i <= bytes.len(),
            mac@ == mac_text(bytes@.take(i as int)),
        decreases bytes.len() - i,
    {
        let ghost done = bytes@.take(i as int);
        let ghost next = bytes@.take(i + 1);
        assert(next.drop_last() == done);
        assert(next.last() == bytes@[i as int]);
        if i != 0 {
            mac.push(':');
        }
        let byte = bytes[i];
        mac.push(hex_char(byte / 16));
        mac.push(hex_char(byte % 16));
        assert(mac@ =~= mac_text(next));
        i += 1;
    }
    assert(bytes@.take(i as int) == bytes@);
    Ok(mac)
}

/// The hardware address shown where the platform gives none reads
/// `00:00:00:00:00:00`.
pub proof fn lemma_unknown_hw_addr_reads_zeros()
    ensures
        unknown_hw_addr() == "00:00:00:00:00:00"@,
{
    reveal_strlit("00:00:00:00:00:00");
    reveal_with_fuel(mac_text, 7);
    assert(unknown_hw_addr() =~= "00:00:00:00:00:00"@);
}

/// Renders the hardware address of an interface: the text of `bytes`, or
/// the all-zero address where there are none.
pub fn format_hw_addr(bytes: &[u8]) -> (text: Result<String, Error>)
    ensures
        text matches Ok(t) && t@ == hw_addr_text(bytes@),
{
    if bytes.len() == 0 {
        format_mac(&[0u8, 0u8, 0u8, 0u8, 0u8, 0u8])
    } else {
        format_mac(bytes)
    }
}

} // verus!
