//! IPv4 addresses as 32-bit values, and their dotted-quad text.

use crate::text::{
    all_digits, digits_value, find_byte, is_digit, position_of, position_of_found,
    read_small_number, small_number, DOT, ZERO,
};
use vstd::prelude::*;
use vstd::slice::slice_subrange;
use vstd::string::{StringExecFns, StringSliceAdditionalSpecFns};
use vstd::utf8::{encode_utf8, is_ascii_chars, is_ascii_chars_encode_utf8};

verus! {

/// An IPv4 address. `bits` holds the four octets with the first (leftmost in
/// dotted-quad text) in the most significant byte.
#[derive(Clone, Copy, Debug, PartialEq, Eq, Structural, Hash)]
pub struct Ipv4Address {
    pub bits: u32,
}

/// The 32-bit value whose bytes, from most to least significant, are `a`, `b`, `c`, `d`.
pub open spec fn compose(a: u8, b: u8, c: u8, d: u8) -> u32 {
    (a as int * 0x100_0000 + b as int * 0x1_0000 + c as int * 0x100 + d as int) as u32
}

/// The `index`-th octet of `bits`, counting from the most significant one.
pub open spec fn octet_of_bits(bits: u32, index: nat) -> u8 {
    if index == 0 {
        (bits as int / 0x100_0000) as u8
    } else if index == 1 {
        (bits as int / 0x1_0000 % 0x100) as u8
    } else if index == 2 {
        (bits as int / 0x100 % 0x100) as u8
    } else {
        (bits as int % 0x100) as u8
    }
}

/// The octet that `field` writes: one to three decimal digits, with no leading
/// zero unless the field is `0` itself, and a value of at most 255.
pub open spec fn octet_field(field: Seq<u8>) -> Option<u8> {
    if field.len() <= 3 && (field.len() > 1 ==> field[0] != ZERO) {
        small_number(field)
    } else {
        None
    }
}

/// The address that `text` writes in dotted-quad form: four octet fields
/// parted by three dots, and nothing else.
pub open spec fn dotted_quad(text: Seq<u8>) -> Option<Ipv4Address> {
    let first = position_of(text, DOT, 0);
    let second = position_of(text, DOT, first + 1);
    let third = position_of(text, DOT, second + 1);
    if third < text.len() {
        match (
            octet_field(text.subrange(0, first)),
            octet_field(text.subrange(first + 1, second)),
            octet_field(text.subrange(second + 1, third)),
            octet_field(text.subrange(third + 1, text.len() as int)),
        ) {
            (Some(a), Some(b), Some(c), Some(d)) => Some(Ipv4Address { bits: compose(a, b, c, d) }),
            _ => None,
        }
    } else {
        None
    }
}

/// The decimal digits of `number` as ASCII bytes, without leading zeros.
pub open spec fn decimal_text(number: nat) -> Seq<u8>
    decreases number,
{
    if number < 10 {
        seq![(ZERO + number) as u8]
    } else {
        decimal_text(number / 10).push((ZERO + number % 10) as u8)
    }
}

/// The dotted-quad text of `address` as ASCII bytes.
pub open spec fn dotted_quad_text(address: Ipv4Address) -> Seq<u8> {
    decimal_text(octet_of_bits(address.bits, 0) as nat) + seq![DOT] + decimal_text(
        octet_of_bits(address.bits, 1) as nat,
    ) + seq![DOT] + decimal_text(octet_of_bits(address.bits, 2) as nat) + seq![DOT]
        + decimal_text(octet_of_bits(address.bits, 3) as nat)
}

/// The characters that the ASCII bytes of `bytes` stand for.
pub open spec fn as_chars(bytes: Seq<u8>) -> Seq<char> {
    Seq::new(bytes.len(), |i: int| bytes[i] as char)
}

impl Ipv4Address {
    /// The four octets, first one first.
    pub open spec fn octets_spec(&self) -> [u8; 4] {
        [
            octet_of_bits(self.bits, 0),
            octet_of_bits(self.bits, 1),
            octet_of_bits(self.bits, 2),
            octet_of_bits(self.bits, 3),
        ]
    }

    /// The address `a.b.c.d`.
    pub fn new(a: u8, b: u8, c: u8, d: u8) -> (address: Ipv4Address)
        ensures
            address.bits == compose(a, b, c, d),
            address.octets_spec() == [a, b, c, d],
    {
        let bits: u32 = (a as u32) * 0x100_0000 + (b as u32) * 0x1_0000 + (c as u32) * 0x100 + (
        d as u32);
        proof {
            octets_of_composed(a, b, c, d);
        }
        Ipv4Address { bits }
    }

    /// The address with the given 32-bit value.
    pub fn from_bits(bits: u32) -> (address: Ipv4Address)
        ensures
            address.bits == bits,
    {
        Ipv4Address { bits }
    }

    /// The 32-bit value of the address.
    pub fn to_bits(&self) -> (bits: u32)
        ensures
            bits == self.bits,
    {
        self.bits
    }

    /// The four octets, first one first.
    pub fn octets(&self) -> (parts: [u8; 4])
        ensures
            parts == self.octets_spec(),
            compose(parts[0], parts[1], parts[2], parts[3]) == self.bits,
    {
        let a: u8 = (self.bits / 0x100_0000) as u8;
        let b: u8 = (self.bits / 0x1_0000 % 0x100) as u8;
        let c: u8 = (self.bits / 0x100 % 0x100) as u8;
        let d: u8 = (self.bits % 0x100) as u8;
        proof {
            composed_of_octets(self.bits);
        }
        [a, b, c, d]
    }

    /// Reads an address from dotted-quad text such as `192.168.1.5`.
    pub fn parse(text: &str) -> (address: Option<Ipv4Address>)
        ensures
            address == dotted_quad(text.spec_bytes()),
    {
        parse_dotted_quad(text.as_bytes())
    }

    /// The address in dotted-quad text, such as `192.168.1.5`. Reading the
    /// text gives back the address.
    pub fn to_dotted_quad(&self) -> (text: String)
        ensures
            text@ == as_chars(dotted_quad_text(*self)),
            encode_utf8(text@) == dotted_quad_text(*self),
            dotted_quad(encode_utf8(text@)) == Some(*self),
    {
        let parts: [u8; 4] = self.octets();
        let mut text = String::new();
        proof {
            reveal_strlit(".");
        }
        push_octet(&mut text, parts[0]);
        text.append(".");
        push_octet(&mut text, parts[1]);
        text.append(".");
        push_octet(&mut text, parts[2]);
        text.append(".");
        push_octet(&mut text, parts[3]);
        proof {
            dotted_quad_text_bytes(*self);
            ascii_bytes_of_chars(dotted_quad_text(*self));
            dotted_quad_text_reads_back(*self);
        }
        text
    }
}

/// Reads one octet field.
pub fn parse_octet(field: &[u8]) -> (octet: Option<u8>)
    ensures
        octet == octet_field(field@),
{
    let len: usize = field.len();
    if len > 3 || (len > 1 && field[0] == ZERO) {
        None
    } else {
        read_small_number(field)
    }
}

/// Reads an address in dotted-quad form from the bytes of its text.
pub fn parse_dotted_quad(text: &[u8]) -> (address: Option<Ipv4Address>)
    ensures
        address == dotted_quad(text@),
{
    let len: usize = text.len();
    let first: usize = find_byte(text, 0, DOT);
    if first >= len {
        return None;
    }
    let second: usize = find_byte(text, first + 1, DOT);
    if second >= len {
        return None;
    }
    let third: usize = find_byte(text, second + 1, DOT);
    if third >= len {
        return None;
    }
    let a = parse_octet(slice_subrange(text, 0, first));
    let b = parse_octet(slice_subrange(text, first + 1, second));
    let c = parse_octet(slice_subrange(text, second + 1, third));
    let d = parse_octet(slice_subrange(text, third + 1, len));
    match (a, b, c, d) {
        (Some(a), Some(b), Some(c), Some(d)) => Some(Ipv4Address::new(a, b, c, d)),
        _ => None,
    }
}

/// The text of one decimal digit.
fn digit_text(digit: u8) -> (text: &'static str)
    requires
        digit < 10,
    ensures
        text@ == as_chars(seq![(ZERO + digit) as u8]),
{
    proof {
        reveal_strlit("0");
        reveal_strlit("1");
        reveal_strlit("2");
        reveal_strlit("3");
        reveal_strlit("4");
        reveal_strlit("5");
        reveal_strlit("6");
        reveal_strlit("7");
        reveal_strlit("8");
        reveal_strlit("9");
    }
    if digit == 0 {
        "0"
    } else if digit == 1 {
        "1"
    } else if digit == 2 {
        "2"
    } else if digit == 3 {
        "3"
    } else if digit == 4 {
        "4"
    } else if digit == 5 {
        "5"
    } else if digit == 6 {
        "6"
    } else if digit == 7 {
        "7"
    } else if digit == 8 {
        "8"
    } else {
        "9"
    }
}

/// Appends the decimal digits of `octet` to `text`.
fn push_octet(text: &mut String, octet: u8)
    ensures
        final(text)@ == old(text)@ + as_chars(decimal_text(octet as nat)),
{
    proof {
        reveal_with_fuel(decimal_text, 3);
    }
    if octet >= 100 {
        text.append(digit_text(octet / 100));
    }
    if octet >= 10 {
        text.append(digit_text(octet / 10 % 10));
    }
    text.append(digit_text(octet % 10));
}

/// Taking a composed value apart gives back the four bytes it was made of.
pub proof fn octets_of_composed(a: u8, b: u8, c: u8, d: u8)
    ensures
        octet_of_bits(compose(a, b, c, d), 0) == a,
        octet_of_bits(compose(a, b, c, d), 1) == b,
        octet_of_bits(compose(a, b, c, d), 2) == c,
        octet_of_bits(compose(a, b, c, d), 3) == d,
{
    let low: int = b as int * 0x1_0000 + c as int * 0x100 + d as int;
    let bits: int = a as int * 0x100_0000 + low;
    assert(bits / 0x100_0000 == a as int) by (nonlinear_arith)
        requires
            bits == a as int * 0x100_0000 + low,
            0 <= low < 0x100_0000,
    ;
    let mid: int = c as int * 0x100 + d as int;
    let upper: int = a as int * 0x100 + b as int;
    assert(bits / 0x1_0000 == upper) by (nonlinear_arith)
        requires
            bits == upper * 0x1_0000 + mid,
            0 <= mid < 0x1_0000,
    ;
    let upmost: int = a as int * 0x1_0000 + b as int * 0x100 + c as int;
    assert(bits / 0x100 == upmost) by (nonlinear_arith)
        requires
            bits == upmost * 0x100 + d as int,
            0 <= d < 0x100,
    ;
    assert(bits % 0x100 == d as int) by (nonlinear_arith)
        requires
            bits == upmost * 0x100 + d as int,
            0 <= d < 0x100,
    ;
    assert(upper % 0x100 == b as int) by (nonlinear_arith)
        requires
            upper == a as int * 0x100 + b as int,
            0 <= b < 0x100,
    ;
    assert(upmost % 0x100 == c as int) by (nonlinear_arith)
        requires
            upmost == upper * 0x100 + c as int,
            0 <= c < 0x100,
    ;
}

/// Putting the four octets of a value together gives back the value.
pub proof fn composed_of_octets(bits: u32)
    ensures
        compose(
            octet_of_bits(bits, 0),
            octet_of_bits(bits, 1),
            octet_of_bits(bits, 2),
            octet_of_bits(bits, 3),
        ) == bits,
{
    assert((bits / 0x100_0000) * 0x100_0000 + (bits / 0x1_0000 % 0x100) * 0x1_0000 + (bits / 0x100
        % 0x100) * 0x100 + bits % 0x100 == bits) by (bit_vector);
}

/// The decimal text of an octet is an octet field that reads as the octet.
pub proof fn decimal_text_reads_back(octet: u8)
    ensures
        1 <= decimal_text(octet as nat).len() <= 3,
        all_digits(decimal_text(octet as nat)),
        octet_field(decimal_text(octet as nat)) == Some(octet),
{
    reveal_with_fuel(decimal_text, 3);
    reveal_with_fuel(digits_value, 4);
}

/// Reading the dotted-quad text of an address gives back the address.
pub proof fn dotted_quad_text_reads_back(address: Ipv4Address)
    ensures
        dotted_quad(dotted_quad_text(address)) == Some(address),
{
    let a = octet_of_bits(address.bits, 0);
    let b = octet_of_bits(address.bits, 1);
    let c = octet_of_bits(address.bits, 2);
    let d = octet_of_bits(address.bits, 3);
    let ta = decimal_text(a as nat);
    let tb = decimal_text(b as nat);
    let tc = decimal_text(c as nat);
    let td = decimal_text(d as nat);
    decimal_text_reads_back(a);
    decimal_text_reads_back(b);
    decimal_text_reads_back(c);
    decimal_text_reads_back(d);
    composed_of_octets(address.bits);
    // The three dots stand behind the first, second and third field, and no
    // field holds one.
    let text = dotted_quad_text(address);
    let first = ta.len() as int;
    let second = first + 1 + tb.len();
    let third = second + 1 + tc.len();
    position_of_found(text, DOT, 0, first);
    position_of_found(text, DOT, first + 1, second);
    position_of_found(text, DOT, second + 1, third);
    assert(text.subrange(0, first) =~= ta);
    assert(text.subrange(first + 1, second) =~= tb);
    assert(text.subrange(second + 1, third) =~= tc);
    assert(text.subrange(third + 1, text.len() as int) =~= td);
}

/// Dotted-quad text holds digits and dots only.
pub proof fn dotted_quad_text_bytes(address: Ipv4Address)
    ensures
        forall|i: int|
            0 <= i < dotted_quad_text(address).len() ==> is_digit(
                #[trigger] dotted_quad_text(address)[i],
            ) || dotted_quad_text(address)[i] == DOT,
{
    decimal_text_reads_back(octet_of_bits(address.bits, 0));
    decimal_text_reads_back(octet_of_bits(address.bits, 1));
    decimal_text_reads_back(octet_of_bits(address.bits, 2));
    decimal_text_reads_back(octet_of_bits(address.bits, 3));
}

/// ASCII bytes are the UTF-8 encoding of the characters they stand for.
pub proof fn ascii_bytes_of_chars(bytes: Seq<u8>)
    requires
        forall|i: int| 0 <= i < bytes.len() ==> #[trigger] bytes[i] < 0x80,
    ensures
        encode_utf8(as_chars(bytes)) == bytes,
{
    let chars = as_chars(bytes);
    assert(is_ascii_chars(chars));
    is_ascii_chars_encode_utf8(chars);
}

} // verus!
