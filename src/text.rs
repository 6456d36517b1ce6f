use vstd::prelude::*;

verus! {

/// The uppercase hexadecimal digit for a value below sixteen.
pub open spec fn hex_digit(d: int) -> char {
    seq!['0', '1', '2', '3', '4', '5', '6', '7', '8', '9', 'A', 'B', 'C', 'D', 'E', 'F'][d]
}

/// A byte as two uppercase hexadecimal digits, zero-padded.
pub open spec fn hex2(b: u8) -> Seq<char> {
    seq![hex_digit(b as int / 16), hex_digit(b as int % 16)]
}

/// A byte in decimal, without leading zeros.
pub open spec fn dec_text(n: u8) -> Seq<char> {
    if n < 10 {
        seq![hex_digit(n as int)]
    } else if n < 100 {
        seq![hex_digit(n as int / 10), hex_digit(n as int % 10)]
    } else {
        seq![hex_digit(n as int / 100), hex_digit((n as int / 10) % 10), hex_digit(n as int % 10)]
    }
}

/// The `k`-th octet of an IPv4 address, counted from the high byte.
pub open spec fn octet(ip: u32, k: int) -> u8 {
    if k == 0 {
        (ip as int / 16777216) as u8
    } else if k == 1 {
        ((ip as int / 65536) % 256) as u8
    } else if k == 2 {
        ((ip as int / 256) % 256) as u8
    } else {
        (ip as int % 256) as u8
    }
}

/// An IPv4 address in dotted-decimal notation.
pub open spec fn ipv4_text(ip: u32) -> Seq<char> {
    dec_text(octet(ip, 0)) + seq!['.'] + dec_text(octet(ip, 1)) + seq!['.'] + dec_text(octet(ip, 2))
        + seq!['.'] + dec_text(octet(ip, 3))
}

/// A six-byte hardware address as colon-separated uppercase hexadecimal pairs.
pub open spec fn mac_text(m: Seq<u8>) -> Seq<char> {
    hex2(m[0]) + seq![':'] + hex2(m[1]) + seq![':'] + hex2(m[2]) + seq![':'] + hex2(m[3]) + seq![':']
        + hex2(m[4]) + seq![':'] + hex2(m[5])
}

/// Relies on the `Display` impl of `macaddr::MacAddr6`, which without flags
/// writes each byte as `{:02X}`, separated by colons.
#[verifier::external_body]
pub(crate) fn mac_to_string(mac: [u8; 6]) -> (r: String)
    ensures
        r@ == mac_text(mac@),
{
    macaddr::MacAddr6::from(mac).to_string()
}

/// Appends the decimal form of `n`.
pub(crate) fn push_dec(s: &mut String, n: u8)
    ensures
        final(s)@ == old(s)@ + dec_text(n),
{
    if n >= 100 {
        push_char(s, hex_char(n / 100));
    }
    if n >= 10 {
        push_char(s, hex_char((n / 10) % 10));
    }
    push_char(s, hex_char(n % 10));
    assert(final(s)@ =~= old(s)@ + dec_text(n));
}

/// The dotted-decimal form of an IPv4 address.
pub fn ipv4_to_string(ip: u32) -> (r: String)
    ensures
        r@ == ipv4_text(ip),
{
    let mut s = String::new();
    push_dec(&mut s, (ip / 16777216) as u8);
    push_char(&mut s, '.');
    push_dec(&mut s, ((ip / 65536) % 256) as u8);
    push_char(&mut s, '.');
    push_dec(&mut s, ((ip / 256) % 256) as u8);
    push_char(&mut s, '.');
    push_dec(&mut s, (ip % 256) as u8);
    assert(s@ =~= ipv4_text(ip));
    s
}

/// Whether `c` is one of the characters `0-9` or `A-F`.
pub open spec fn is_upper_hex(c: char) -> bool {
    ('0' <= c && c <= '9') || ('A' <= c && c <= 'F')
}

/// The value of an uppercase hexadecimal digit.
pub open spec fn hex_value(c: char) -> int {
    if '0' <= c && c <= '9' {
        c as int - '0' as int
    } else {
        c as int - 'A' as int + 10
    }
}

/// Relies on `String::push`: the character is appended at the end.
#[verifier::external_body]
pub(crate) fn push_char(s: &mut String, c: char)
    ensures
        final(s)@ == old(s)@.push(c),
{
    s.push(c)
}

pub(crate) fn hex_char(d: u8) -> (c: char)
    requires
        d < 16,
    ensures
        c == hex_digit(d as int),
{
    match d {
        0 => '0',
        1 => '1',
        2 => '2',
        3 => '3',
        4 => '4',
        5 => '5',
        6 => '6',
        7 => '7',
        8 => '8',
        9 => '9',
        10 => 'A',
        11 => 'B',
        12 => 'C',
        13 => 'D',
        14 => 'E',
        _ => 'F',
    }
}

/// Appends the two-digit uppercase hexadecimal form of `b`.
pub(crate) fn push_hex2(s: &mut String, b: u8)
    ensures
        final(s)@ == old(s)@ + hex2(b),
{
    push_char(s, hex_char(b / 16));
    push_char(s, hex_char(b % 16));
    assert(final(s)@ =~= old(s)@ + hex2(b));
}

} // verus!
