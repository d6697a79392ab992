//! An eight-bit-per-channel colour, and the `#rrggbb` hex form colours are written in.
//!
//! The linear-light conversion and the contrast arithmetic are floating point and live
//! with the renderer; what is here is the colour itself and its text form.
use vstd::prelude::*;

use crate::spell::{ascii_lower, ascii_lower_seq, chars_of, string_of};

verus! {

/// A colour in the sRGB space, eight bits per channel.
#[derive(Clone, Copy, PartialEq, Eq, Hash, PartialOrd, Ord, Default, Debug, Structural)]
pub struct Rgb {
    /// Red.
    pub r: u8,
    /// Green.
    pub g: u8,
    /// Blue.
    pub b: u8,
}

/// The value of a hex digit, either case.
pub open spec fn hex_value(c: char) -> Option<u8> {
    if '0' <= c <= '9' {
        Some((c as u32 - 48) as u8)
    } else if 'a' <= c <= 'f' {
        Some((c as u32 - 87) as u8)
    } else if 'A' <= c <= 'F' {
        Some((c as u32 - 55) as u8)
    } else {
        None
    }
}

/// The digits of a hex colour: everything after a leading `#`, if there is one.
pub open spec fn hex_body(s: Seq<char>) -> Seq<char> {
    if s.len() > 0 && s[0] == '#' {
        s.drop_first()
    } else {
        s
    }
}

/// The byte two hex digits spell, high digit first.
pub open spec fn hex_byte(hi: char, lo: char) -> Option<u8> {
    match (hex_value(hi), hex_value(lo)) {
        (Some(h), Some(l)) => Some((h * 16 + l) as u8),
        _ => None,
    }
}

/// The colour `#rrggbb` or `rrggbb` spells, and nothing for any other text.
pub open spec fn parse_hex(s: Seq<char>) -> Option<Rgb> {
    let d = hex_body(s);
    if d.len() != 6 {
        None
    } else {
        match (hex_byte(d[0], d[1]), hex_byte(d[2], d[3]), hex_byte(d[4], d[5])) {
            (Some(r), Some(g), Some(b)) => Some(Rgb { r, g, b }),
            _ => None,
        }
    }
}

/// The lowercase hex digit for a value below 16.
pub open spec fn hex_digit(n: u8) -> char {
    if n == 0 { '0' } else if n == 1 { '1' } else if n == 2 { '2' } else if n == 3 { '3' }
    else if n == 4 { '4' } else if n == 5 { '5' } else if n == 6 { '6' } else if n == 7 { '7' }
    else if n == 8 { '8' } else if n == 9 { '9' } else if n == 10 { 'a' } else if n == 11 { 'b' }
    else if n == 12 { 'c' } else if n == 13 { 'd' } else if n == 14 { 'e' } else { 'f' }
}

/// A byte as two lowercase hex digits.
pub open spec fn hex_pair(v: u8) -> Seq<char> {
    seq![hex_digit(v / 16), hex_digit(v % 16)]
}

impl Rgb {
    /// The `#rrggbb` form, lowercase.
    pub open spec fn spec_hex(self) -> Seq<char> {
        seq!['#'] + hex_pair(self.r) + hex_pair(self.g) + hex_pair(self.b)
    }

    /// Build a colour from its three channels.
    pub fn new(r: u8, g: u8, b: u8) -> (c: Rgb)
        ensures
            c == (Rgb { r, g, b }),
    {
        Rgb { r, g, b }
    }

    /// Black, which is not the same as "unset" anywhere.
    pub fn black() -> (c: Rgb)
        ensures
            c == (Rgb { r: 0, g: 0, b: 0 }),
    {
        Rgb { r: 0, g: 0, b: 0 }
    }

    /// White.
    pub fn white() -> (c: Rgb)
        ensures
            c == (Rgb { r: 0xff, g: 0xff, b: 0xff }),
    {
        Rgb { r: 0xff, g: 0xff, b: 0xff }
    }

    /// Parse `#rrggbb` or `rrggbb`, in either case.
    ///
    /// Shorthand, alpha forms and named colours are refused: accepting them would let a
    /// config file hold a colour that means something other than what is written.
    pub fn from_hex(hex: &str) -> (r: Option<Rgb>)
        ensures
            r == parse_hex(hex@),
    {
        let chars = chars_of(hex);
        let start: usize = if chars.len() > 0 && chars[0] == '#' { 1 } else { 0 };
        proof {
            if start == 1 {
                assert(hex_body(hex@) =~= hex@.subrange(1, hex@.len() as int));
            } else {
                assert(hex_body(hex@) =~= hex@.subrange(0, hex@.len() as int));
            }
        }
        if chars.len() - start != 6 {
            return None;
        }
        let r = match pair(chars[start], chars[start + 1]) {
            Some(v) => v,
            None => return None,
        };
        let g = match pair(chars[start + 2], chars[start + 3]) {
            Some(v) => v,
            None => return None,
        };
        let b = match pair(chars[start + 4], chars[start + 5]) {
            Some(v) => v,
            None => return None,
        };
        Some(Rgb { r, g, b })
    }

    /// The three channels, in order.
    pub fn to_array(self) -> (r: [u8; 3])
        ensures
            r@ == seq![self.r, self.g, self.b],
    {
        let a = [self.r, self.g, self.b];
        assert(a@ =~= seq![self.r, self.g, self.b]);
        a
    }

    /// The `#rrggbb` form, lowercase, for the settings panel and for writing a theme out.
    pub fn to_hex(self) -> (r: String)
        ensures
            r@ == self.spec_hex(),
    {
        let mut v: Vec<char> = Vec::new();
        v.push('#');
        push_pair(&mut v, self.r);
        push_pair(&mut v, self.g);
        push_pair(&mut v, self.b);
        assert(v@ =~= self.spec_hex());
        string_of(&v)
    }
}

/// One hex digit's value, or `None` if the character is not one.
fn nibble(c: char) -> (r: Option<u8>)
    ensures
        r == hex_value(c),
{
    if '0' <= c && c <= '9' {
        Some(((c as u32) - 48) as u8)
    } else if 'a' <= c && c <= 'f' {
        Some(((c as u32) - 87) as u8)
    } else if 'A' <= c && c <= 'F' {
        Some(((c as u32) - 55) as u8)
    } else {
        None
    }
}

/// The byte two hex digits spell.
fn pair(hi: char, lo: char) -> (r: Option<u8>)
    ensures
        r == hex_byte(hi, lo),
{
    match (nibble(hi), nibble(lo)) {
        (Some(h), Some(l)) => Some(h * 16 + l),
        _ => None,
    }
}

/// The lowercase hex digit for a value below 16.
fn digit(n: u8) -> (r: char)
    requires
        n < 16,
    ensures
        r == hex_digit(n),
{
    match n {
        0 => '0',
        1 => '1',
        2 => '2',
        3 => '3',
        4 => '4',
        5 => '5',
        6 => '6',
        7 => '7',
        8 => '8',
        9 => '9',
        10 => 'a',
        11 => 'b',
        12 => 'c',
        13 => 'd',
        14 => 'e',
        _ => 'f',
    }
}

/// Append a byte as two lowercase hex digits.
fn push_pair(out: &mut Vec<char>, v: u8)
    ensures
        final(out)@ == old(out)@ + hex_pair(v),
{
    out.push(digit(v / 16));
    out.push(digit(v % 16));
    assert(out@ =~= old(out)@ + hex_pair(v));
}

impl From<[u8; 3]> for Rgb {
    fn from(channels: [u8; 3]) -> (c: Rgb)
        ensures
            c == (Rgb { r: channels@[0], g: channels@[1], b: channels@[2] }),
    {
        Rgb { r: channels[0], g: channels[1], b: channels[2] }
    }
}

impl vstd::std_specs::convert::FromSpecImpl<[u8; 3]> for Rgb {
    open spec fn obeys_from_spec() -> bool {
        true
    }

    open spec fn from_spec(channels: [u8; 3]) -> Rgb {
        Rgb { r: channels@[0], g: channels@[1], b: channels@[2] }
    }
}

impl From<Rgb> for [u8; 3] {
    fn from(rgb: Rgb) -> (a: [u8; 3])
        ensures
            a@ == seq![rgb.r, rgb.g, rgb.b],
    {
        rgb.to_array()
    }
}

impl vstd::std_specs::convert::FromSpecImpl<Rgb> for [u8; 3] {
    open spec fn obeys_from_spec() -> bool {
        true
    }

    open spec fn from_spec(rgb: Rgb) -> [u8; 3] {
        [rgb.r, rgb.g, rgb.b]
    }
}

/// A hex digit reads back as the value it was written for.
pub proof fn lemma_digit_reads_back(n: u8)
    requires
        n < 16,
    ensures
        hex_value(hex_digit(n)) == Some(n),
{
}

/// Every colour reads back from its hex form as itself.
pub proof fn lemma_hex_round_trips(c: Rgb)
    ensures
        parse_hex(c.spec_hex()) == Some(c),
{
    lemma_digit_reads_back(c.r / 16);
    lemma_digit_reads_back(c.r % 16);
    lemma_digit_reads_back(c.g / 16);
    lemma_digit_reads_back(c.g % 16);
    lemma_digit_reads_back(c.b / 16);
    lemma_digit_reads_back(c.b % 16);
    let h = c.spec_hex();
    assert(hex_body(h) =~= hex_pair(c.r) + hex_pair(c.g) + hex_pair(c.b));
}

/// A hex digit is written back as itself in lowercase.
proof fn lemma_digit_writes_back(ch: char)
    requires
        hex_value(ch) is Some,
    ensures
        hex_digit(hex_value(ch)->0) == ascii_lower(ch),
{
    let v = ch as u32;
    if '0' <= ch <= '9' {
        assert(48 <= v <= 57);
        assert(ch == v as char);
    } else if 'a' <= ch <= 'f' {
        assert(97 <= v <= 102);
        assert(ch == v as char);
    } else {
        assert(65 <= v <= 70);
        assert(ch == v as char);
    }
}

/// The two digits of a byte are read as its high and low nibbles.
proof fn lemma_byte_writes_back(hi: char, lo: char)
    requires
        hex_byte(hi, lo) is Some,
    ensures
        hex_pair(hex_byte(hi, lo)->0) == seq![ascii_lower(hi), ascii_lower(lo)],
{
    lemma_digit_writes_back(hi);
    lemma_digit_writes_back(lo);
    let h = hex_value(hi)->0;
    let l = hex_value(lo)->0;
    assert(h < 16 && l < 16);
    let b = hex_byte(hi, lo)->0;
    assert(b == h * 16 + l);
    assert(b / 16 == h && b % 16 == l);
}

/// A colour read from hex text is written back as `#` followed by the text's six digits
/// in lowercase.
pub proof fn lemma_hex_writes_back_lowercase(s: Seq<char>)
    requires
        parse_hex(s) is Some,
    ensures
        parse_hex(s)->0.spec_hex() == seq!['#'] + ascii_lower_seq(hex_body(s)),
{
    let d = hex_body(s);
    let c = parse_hex(s)->0;
    assert(d.len() == 6);
    assert(c.r == hex_byte(d[0], d[1])->0 && c.g == hex_byte(d[2], d[3])->0 && c.b == hex_byte(
        d[4],
        d[5],
    )->0);
    lemma_byte_writes_back(d[0], d[1]);
    lemma_byte_writes_back(d[2], d[3]);
    lemma_byte_writes_back(d[4], d[5]);
    let low = ascii_lower_seq(d);
    assert(low =~= seq![
        ascii_lower(d[0]),
        ascii_lower(d[1]),
        ascii_lower(d[2]),
        ascii_lower(d[3]),
        ascii_lower(d[4]),
        ascii_lower(d[5]),
    ]);
    assert(c.spec_hex() =~= seq!['#'] + low);
}

} // verus!
