//! Finding the shells this machine has: the parts that are decisions rather than lookups.
//!
//! Looking on disk, on `PATH` and asking `wsl.exe` is the host's. What is here is reading
//! what `wsl.exe` printed, whatever encoding it arrived in; telling two paths to the same
//! file apart from two different files; dropping duplicates; and the order the picker
//! shows the shells in.
use vstd::prelude::*;

use crate::spell::{utf8, ascii_lower, ascii_lower_seq, lower_char, chars_of, is_space, push_char, space, string_of, trim, trim_start, trimmed, utf8_seq};

verus! {

/// Where a profile was found, which decides how much it can be trusted.
#[derive(Clone, Copy, PartialEq, Eq, Debug, Structural)]
pub enum Source {
    /// A location that is correct on every Windows install.
    KnownLocation,
    /// Found by walking `PATH`.
    Path,
    /// A Windows app execution alias. It may point at nothing.
    AppAlias,
    /// A distribution reported by `wsl.exe`.
    Wsl,
}

/// One line of `wsl --list --verbose`.
#[derive(Clone, PartialEq, Eq, Debug)]
pub struct Distro {
    /// The distribution's name.
    pub name: String,
    /// Whether this is the distribution WSL opens by default.
    pub default: bool,
}

// ---- decoding ------------------------------------------------------------------------

/// What `String::from_utf8_lossy` makes of a byte sequence.
pub uninterp spec fn utf8_lossy(bytes: Seq<u8>) -> Seq<char>;

/// What `String::from_utf16_lossy` makes of a sequence of UTF-16 code units.
pub uninterp spec fn utf16_lossy(units: Seq<u16>) -> Seq<char>;

/// Decode bytes as UTF-8, replacing what is not UTF-8 with U+FFFD.
///
/// Calls `String::from_utf8_lossy`. Claimed: the result is a function of the bytes alone,
/// and bytes that are the UTF-8 encoding of some text decode to exactly that text.
#[verifier::external_body]
fn decode_utf8(bytes: &[u8]) -> (r: String)
    ensures
        r@ == utf8_lossy(bytes@),
        forall|s: Seq<char>| #[trigger] utf8_seq(s) == bytes@ ==> r@ == s,
{
    String::from_utf8_lossy(bytes).into_owned()
}

/// Whether each unit is the code point of the character at the same place, so that the
/// units are the text's UTF-16 encoding with no surrogate pairs.
pub open spec fn one_unit_each(units: Seq<u16>, s: Seq<char>) -> bool {
    s.len() == units.len() && forall|i: int| 0 <= i < s.len() ==> #[trigger] s[i] as u32 == units[i] as u32
}

/// Decode UTF-16 code units, replacing what is not UTF-16 with U+FFFD.
///
/// Calls `String::from_utf16_lossy`. Claimed: the result is a function of the units alone,
/// and units that are each the code point of a character outside the surrogate range
/// decode to exactly those characters.
#[verifier::external_body]
fn decode_utf16(units: &[u16]) -> (r: String)
    ensures
        r@ == utf16_lossy(units@),
        forall|s: Seq<char>| #[trigger] one_unit_each(units@, s) ==> r@ == s,
{
    String::from_utf16_lossy(units)
}

/// How many of the first `k` byte pairs have a zero high byte, as UTF-16 text in the ASCII
/// range does.
pub open spec fn zero_high_bytes(bytes: Seq<u8>, k: int) -> nat
    decreases k,
{
    if k <= 0 {
        0
    } else {
        zero_high_bytes(bytes, k - 1) + if bytes[2 * (k - 1) + 1] == 0 { 1nat } else { 0nat }
    }
}

/// Whether console output looks like UTF-16LE: an even length of at least four bytes, and
/// more than 16 of its first 64 pairs with a zero second byte, which UTF-8 text does not
/// produce.
pub open spec fn looks_utf16(bytes: Seq<u8>) -> bool {
    let pairs = if bytes.len() / 2 < 64 { bytes.len() / 2 } else { 64 };
    bytes.len() >= 4 && bytes.len() % 2 == 0 && zero_high_bytes(bytes, pairs as int) > 16
}

/// The bytes read as little-endian 16-bit units.
pub open spec fn le_units(bytes: Seq<u8>) -> Seq<u16> {
    Seq::new(bytes.len() / 2, |i: int| (bytes[2 * i] + 256 * bytes[2 * i + 1]) as u16)
}

/// Console output decoded as whichever of UTF-16LE and UTF-8 it looks like.
pub open spec fn console_text(bytes: Seq<u8>) -> Seq<char> {
    if looks_utf16(bytes) {
        utf16_lossy(le_units(bytes))
    } else {
        utf8_lossy(bytes)
    }
}

/// Decode output that may be UTF-16 or UTF-8, deciding by looking at the bytes rather than
/// by which command produced them. Bytes that are the UTF-8 encoding of a text, and do not
/// look like UTF-16, decode to that text; bytes that look like UTF-16 and whose units are
/// each the code point of a character decode to those characters.
pub fn decode_console_output(bytes: &[u8]) -> (r: String)
    ensures
        r@ == console_text(bytes@),
        !looks_utf16(bytes@) ==> forall|s: Seq<char>| #[trigger] utf8_seq(s) == bytes@ ==> r@ == s,
        looks_utf16(bytes@) ==> forall|s: Seq<char>| #[trigger] one_unit_each(le_units(bytes@), s) ==> r@ == s,
        forall|s: Seq<char>| #[trigger] utf8_seq(s) == bytes@ && !s.contains('\0') ==> r@ == s,
        forall|s: Seq<char>|
            #[trigger] narrow_utf16le(s) == bytes@ && narrow(s) && s.len() >= 17 ==> r@ == s,
{
    proof {
        assert forall|s: Seq<char>| #[trigger] utf8_seq(s) == bytes@ && !s.contains('\0') implies !looks_utf16(
            bytes@,
        ) by {
            lemma_plain_output_is_recognised(s);
        }
        assert forall|s: Seq<char>| #[trigger]
            narrow_utf16le(s) == bytes@ && narrow(s) && s.len() >= 17 implies looks_utf16(bytes@)
            && one_unit_each(le_units(bytes@), s) by {
            lemma_plain_output_is_recognised(s);
        }
    }
    let n = bytes.len();
    let mut looks = false;
    if n >= 4 && n % 2 == 0 {
        let pairs: usize = if n / 2 < 64 { n / 2 } else { 64 };
        let mut zeros: usize = 0;
        let mut k: usize = 0;
        while k < pairs
            invariant
                k <= pairs,
                pairs <= n / 2,
                n == bytes@.len(),
                zeros == zero_high_bytes(bytes@, k as int),
                zeros <= k,
            decreases pairs - k,
        {
            if bytes[2 * k + 1] == 0 {
                zeros += 1;
            }
            k += 1;
        }
        looks = zeros > 16;
    }
    if looks {
        let mut units: Vec<u16> = Vec::new();
        let mut i: usize = 0;
        while i < n / 2
            invariant
                i <= n / 2,
                n == bytes@.len(),
                units@ == le_units(bytes@).take(i as int),
            decreases n / 2 - i,
        {
            let unit: u16 = (bytes[2 * i] as u16) + 256 * (bytes[2 * i + 1] as u16);
            units.push(unit);
            assert(units@ =~= le_units(bytes@).take(i as int + 1));
            i += 1;
        }
        assert(units@ =~= le_units(bytes@));
        decode_utf16(units.as_slice())
    } else {
        decode_utf8(bytes)
    }
}

/// The UTF-16LE encoding of a text whose characters are all below U+0100: each character's
/// code point as a low byte, followed by a zero high byte.
pub open spec fn narrow_utf16le(s: Seq<char>) -> Seq<u8> {
    Seq::new(2 * s.len(), |i: int| if i % 2 == 0 { (s[i / 2] as u32) as u8 } else { 0u8 })
}

/// Whether every character of a text is below U+0100, so that each is one UTF-16 unit
/// with a zero high byte.
pub open spec fn narrow(s: Seq<char>) -> bool {
    forall|i: int| 0 <= i < s.len() ==> (#[trigger] s[i] as u32) < 0x100
}

/// No byte of a character's UTF-8 is zero, unless the character is NUL.
proof fn lemma_utf8_has_no_zero(c: char)
    requires
        c != '\0',
    ensures
        forall|j: int| 0 <= j < utf8(c).len() ==> #[trigger] utf8(c)[j] != 0,
{
    let v: u32 = c as u32;
    if v >= 0x80 && v < 0x800 {
        assert((0xc0 | (v >> 6u32)) as u8 != 0 && (0x80 | (v & 0x3f)) as u8 != 0) by (bit_vector);
    } else if v >= 0x800 && v < 0x10000 {
        assert((0xe0 | (v >> 12u32)) as u8 != 0 && (0x80 | ((v >> 6u32) & 0x3f)) as u8 != 0 && (0x80 | (v
            & 0x3f)) as u8 != 0) by (bit_vector);
    } else if v >= 0x10000 {
        assert((0xf0 | (v >> 18u32)) as u8 != 0 && (0x80 | ((v >> 12u32) & 0x3f)) as u8 != 0 && (0x80 | ((v
            >> 6u32) & 0x3f)) as u8 != 0 && (0x80 | (v & 0x3f)) as u8 != 0) by (bit_vector);
    }
}

/// No byte of the UTF-8 of a text without NUL is zero.
proof fn lemma_utf8_seq_has_no_zero(s: Seq<char>)
    requires
        !s.contains('\0'),
    ensures
        forall|j: int| 0 <= j < utf8_seq(s).len() ==> #[trigger] utf8_seq(s)[j] != 0,
    decreases s.len(),
{
    if s.len() > 0 {
        let front = s.drop_last();
        assert(!front.contains('\0')) by {
            if front.contains('\0') {
                let i = choose|i: int| 0 <= i < front.len() && front[i] == '\0';
                assert(s[i] == '\0');
            }
        }
        lemma_utf8_seq_has_no_zero(front);
        assert(s[s.len() - 1] != '\0');
        lemma_utf8_has_no_zero(s.last());
        let p = utf8_seq(front);
        assert forall|j: int| 0 <= j < utf8_seq(s).len() implies #[trigger] utf8_seq(s)[j] != 0 by {
            if j < p.len() {
                assert(utf8_seq(s)[j] == p[j]);
            } else {
                assert(utf8_seq(s)[j] == utf8(s.last())[j - p.len()]);
            }
        }
    }
}

/// Counting zero high bytes over pairs whose high bytes are all non-zero gives none.
proof fn lemma_no_zero_high_bytes(bytes: Seq<u8>, k: int)
    requires
        0 <= k,
        2 * k <= bytes.len(),
        forall|j: int| 0 <= j < bytes.len() ==> #[trigger] bytes[j] != 0,
    ensures
        zero_high_bytes(bytes, k) == 0,
    decreases k,
{
    if k > 0 {
        lemma_no_zero_high_bytes(bytes, k - 1);
        assert(bytes[2 * (k - 1) + 1] != 0);
    }
}

/// Counting zero high bytes over pairs whose high bytes are all zero counts every pair.
proof fn lemma_all_zero_high_bytes(bytes: Seq<u8>, k: int)
    requires
        0 <= k,
        2 * k <= bytes.len(),
        forall|i: int| 0 <= i < bytes.len() / 2 ==> #[trigger] bytes[2 * i + 1] == 0,
    ensures
        zero_high_bytes(bytes, k) == k,
    decreases k,
{
    if k > 0 {
        lemma_all_zero_high_bytes(bytes, k - 1);
        assert(bytes[2 * (k - 1) + 1] == 0);
    }
}

/// Text read back from console output: the UTF-8 of a text without NUL never looks like
/// UTF-16, and the UTF-16LE of a text of at least 17 characters all below U+0100 does, with
/// each of its units the code point of the character at the same place.
pub proof fn lemma_plain_output_is_recognised(s: Seq<char>)
    ensures
        !s.contains('\0') ==> !looks_utf16(utf8_seq(s)),
        narrow(s) && s.len() >= 17 ==> looks_utf16(narrow_utf16le(s)) && one_unit_each(
            le_units(narrow_utf16le(s)),
            s,
        ),
{
    if !s.contains('\0') {
        let b = utf8_seq(s);
        lemma_utf8_seq_has_no_zero(s);
        let pairs = if b.len() / 2 < 64 { b.len() / 2 } else { 64 };
        lemma_no_zero_high_bytes(b, pairs as int);
    }
    if narrow(s) && s.len() >= 17 {
        let b = narrow_utf16le(s);
        assert forall|i: int| 0 <= i < b.len() / 2 implies #[trigger] b[2 * i + 1] == 0 by {
            assert((2 * i + 1) % 2 == 1);
        }
        let pairs = if b.len() / 2 < 64 { b.len() / 2 } else { 64 };
        lemma_all_zero_high_bytes(b, pairs as int);
        let units = le_units(b);
        assert forall|i: int| 0 <= i < s.len() implies #[trigger] s[i] as u32 == units[i] as u32 by {
            assert((2 * i) % 2 == 0 && (2 * i) / 2 == i);
            assert((2 * i + 1) % 2 == 1);
            assert((s[i] as u32) < 0x100);
            assert(b[2 * i] == (s[i] as u32) as u8);
            assert(b[2 * i + 1] == 0);
        }
    }
}

// ---- reading the listing -------------------------------------------------------------

/// The lines of a text: split at each line feed, with no line after a final one. A
/// carriage return before the line feed stays on its line, where trimming removes it.
pub open spec fn split_lines(s: Seq<char>, current: Seq<char>) -> Seq<Seq<char>>
    decreases s.len(),
{
    if s.len() == 0 {
        if current.len() == 0 {
            Seq::empty()
        } else {
            seq![current]
        }
    } else if s[0] == '\n' {
        seq![current] + split_lines(s.drop_first(), Seq::empty())
    } else {
        split_lines(s.drop_first(), current.push(s[0]))
    }
}

/// `s` with its leading `*` characters removed.
pub open spec fn strip_stars(s: Seq<char>) -> Seq<char>
    decreases s.len(),
{
    if s.len() > 0 && s[0] == '*' {
        strip_stars(s.drop_first())
    } else {
        s
    }
}

/// The characters of `s` up to its first white space.
pub open spec fn first_token(s: Seq<char>) -> Seq<char>
    decreases s.len(),
{
    if s.len() == 0 || is_space(s[0]) {
        Seq::empty()
    } else {
        seq![s[0]] + first_token(s.drop_first())
    }
}

/// The column header's first word.
pub open spec fn header_word() -> Seq<char> {
    seq!['N', 'A', 'M', 'E']
}

/// The distribution a line of the listing names, and whether it is marked as the default:
/// nothing for a blank line, for the header, or for a line with no name on it.
pub open spec fn distro_of(line: Seq<char>) -> Option<(Seq<char>, bool)> {
    let t = trim(line);
    let first = trim_start(strip_stars(t));
    let name = first_token(first);
    if t.len() == 0 {
        None
    } else if first.len() >= 4 && first.take(4) == header_word() {
        None
    } else if name.len() == 0 {
        None
    } else {
        Some((name, t[0] == '*'))
    }
}

/// The distributions named by a list of lines, in order.
pub open spec fn distros_in(lines: Seq<Seq<char>>) -> Seq<(Seq<char>, bool)>
    decreases lines.len(),
{
    if lines.len() == 0 {
        Seq::empty()
    } else {
        (match distro_of(lines[0]) {
            Some(d) => seq![d],
            None => Seq::empty(),
        }) + distros_in(lines.drop_first())
    }
}

/// The distributions a listing names.
pub open spec fn wsl_distros(text: Seq<char>) -> Seq<(Seq<char>, bool)> {
    distros_in(split_lines(text, Seq::empty()))
}

/// The list of distributions, seen as names and default marks.
pub open spec fn distros_view(v: Seq<Distro>) -> Seq<(Seq<char>, bool)> {
    v.map_values(|d: Distro| (d.name@, d.default))
}

/// The distribution on the line `chars[lo..hi]`, if it names one.
fn read_line(chars: &Vec<char>, lo: usize, hi: usize) -> (r: Option<Distro>)
    requires
        lo <= hi <= chars.len(),
    ensures
        match r {
            Some(d) => distro_of(chars@.subrange(lo as int, hi as int)) == Some((d.name@, d.default)),
            None => distro_of(chars@.subrange(lo as int, hi as int)) is None,
        },
{
    let t = trimmed(chars, lo, hi);
    if t.len() == 0 {
        return None;
    }
    let mut a: usize = 0;
    assert(t@.skip(0) =~= t@);
    while a < t.len() && t[a] == '*'
        invariant
            a <= t.len(),
            strip_stars(t@) == strip_stars(t@.skip(a as int)),
        decreases t.len() - a,
    {
        assert(t@.skip(a as int).drop_first() =~= t@.skip(a as int + 1));
        a += 1;
    }
    let ghost stripped = t@.skip(a as int);
    assert(strip_stars(stripped) == stripped);
    assert(t@.skip(0) =~= t@);
    while a < t.len() && space(t[a])
        invariant
            a <= t.len(),
            trim_start(strip_stars(t@)) == trim_start(t@.skip(a as int)),
        decreases t.len() - a,
    {
        assert(t@.skip(a as int).drop_first() =~= t@.skip(a as int + 1));
        a += 1;
    }
    let ghost first = t@.skip(a as int);
    assert(trim_start(first) == first);
    if t.len() - a >= 4 && t[a] == 'N' && t[a + 1] == 'A' && t[a + 2] == 'M' && t[a + 3] == 'E' {
        assert(first.take(4) =~= header_word());
        return None;
    }
    proof {
        if first.len() >= 4 && first.take(4) == header_word() {
            assert(first.take(4)[0] == 'N' && first.take(4)[1] == 'A');
            assert(first.take(4)[2] == 'M' && first.take(4)[3] == 'E');
        }
    }
    let mut name = String::new();
    let mut b = a;
    while b < t.len() && !space(t[b])
        invariant
            a <= b <= t.len(),
            first == t@.skip(a as int),
            first_token(first) == name@ + first_token(t@.skip(b as int)),
        decreases t.len() - b,
    {
        let ghost before = name@;
        assert(t@.skip(b as int).drop_first() =~= t@.skip(b as int + 1));
        push_char(&mut name, t[b]);
        assert(before + (seq![t@[b as int]] + first_token(t@.skip(b as int + 1))) =~= name@
            + first_token(t@.skip(b as int + 1)));
        b += 1;
    }
    assert(first_token(t@.skip(b as int)) =~= Seq::<char>::empty());
    assert(name@ + Seq::<char>::empty() =~= name@);
    if b == a {
        return None;
    }
    Some(Distro { name, default: t[0] == '*' })
}

/// Parse `wsl.exe --list --verbose` output, whatever encoding it arrived in.
///
/// The header is the line whose first word is `NAME`; every other non-blank line is a
/// distribution whose name is its first word, marked as the default when the line starts
/// with `*`.
pub fn parse_wsl_list(bytes: &[u8]) -> (r: Vec<Distro>)
    ensures
        distros_view(r@) == wsl_distros(console_text(bytes@)),
{
    let text = decode_console_output(bytes);
    let chars = chars_of(text.as_str());
    let ghost target = wsl_distros(chars@);
    let mut out: Vec<Distro> = Vec::new();
    let mut start: usize = 0;
    let mut i: usize = 0;
    assert(chars@.skip(0) =~= chars@);
    assert(chars@.subrange(0, 0) =~= Seq::<char>::empty());
    while i < chars.len()
        invariant
            start <= i <= chars.len(),
            target == distros_view(out@) + distros_in(
                split_lines(chars@.skip(i as int), chars@.subrange(start as int, i as int)),
            ),
        decreases chars.len() - i,
    {
        let ghost rest = chars@.skip(i as int);
        let ghost cur = chars@.subrange(start as int, i as int);
        assert(rest.drop_first() =~= chars@.skip(i as int + 1));
        if chars[i] == '\n' {
            let ghost seen = distros_view(out@);
            let ghost tail = split_lines(chars@.skip(i as int + 1), Seq::<char>::empty());
            assert(split_lines(rest, cur) == seq![cur] + tail);
            assert((seq![cur] + tail).drop_first() =~= tail);
            assert((seq![cur] + tail)[0] == cur);
            match read_line(&chars, start, i) {
                Some(d) => {
                    out.push(d);
                    assert(distros_view(out@) =~= seen.push((out@.last().name@, out@.last().default)));
                },
                None => {},
            }
            assert(target == distros_view(out@) + distros_in(tail));
            start = i + 1;
            assert(chars@.subrange(start as int, start as int) =~= Seq::<char>::empty());
        } else {
            assert(cur.push(chars@[i as int]) =~= chars@.subrange(start as int, i as int + 1));
        }
        i += 1;
    }
    let ghost cur = chars@.subrange(start as int, i as int);
    proof {
        assert(chars@.skip(i as int) =~= Seq::<char>::empty());
        assert(distros_in(Seq::<Seq<char>>::empty()) =~= Seq::<(Seq<char>, bool)>::empty());
    }
    if start < chars.len() {
        let ghost seen = distros_view(out@);
        proof {
            assert(split_lines(Seq::<char>::empty(), cur) == seq![cur]);
            assert(seq![cur].drop_first() =~= Seq::<Seq<char>>::empty());
            assert(seq![cur][0] == cur);
        }
        match read_line(&chars, start, chars.len()) {
            Some(d) => {
                out.push(d);
                assert(distros_view(out@) =~= seen.push((out@.last().name@, out@.last().default)));
            },
            None => {},
        }
    } else {
        assert(cur =~= Seq::<char>::empty());
    }
    assert(distros_view(out@) + Seq::<(Seq<char>, bool)>::empty() =~= distros_view(out@));
    out
}

// ---- the same file twice -------------------------------------------------------------

/// What `str::to_lowercase` makes of a text.
pub uninterp spec fn lowercase(s: Seq<char>) -> Seq<char>;

/// The Unicode lowercase of a text.
///
/// Calls `str::to_lowercase`. Claimed: the result is a function of the text alone, and a
/// text made only of ASCII is lowercased letter by letter, A to Z becoming a to z. What
/// the Unicode tables make of the rest is left unsaid.
#[verifier::external_body]
pub(crate) fn to_lower(s: &str) -> (r: String)
    ensures
        r@ == lowercase(s@),
        (forall|i: int| 0 <= i < s@.len() ==> (#[trigger] s@[i] as u32) < 128) ==> r@ == ascii_lower_seq(s@),
{
    s.to_lowercase()
}

/// Whether a character separates path components.
pub open spec fn is_separator(c: char) -> bool {
    c == '\\' || c == '/'
}

/// A path with its trailing separators removed.
pub open spec fn trim_separators(s: Seq<char>) -> Seq<char>
    decreases s.len(),
{
    if s.len() > 0 && is_separator(s.last()) {
        trim_separators(s.drop_last())
    } else {
        s
    }
}

/// Whether a path begins with a drive letter and a colon, such as `C:`.
pub open spec fn has_drive(s: Seq<char>) -> bool {
    s.len() >= 2 && (('a' <= s[0] <= 'z') || ('A' <= s[0] <= 'Z')) && s[1] == ':'
}

/// Whether a path begins with two separators, as a network share does.
pub open spec fn starts_with_two_separators(s: Seq<char>) -> bool {
    s.len() >= 2 && is_separator(s[0]) && is_separator(s[1])
}

/// Whether a path begins with `\\?\` (taken as written, with no separator but `\`) or with
/// `\\.\` (a device).
pub open spec fn verbatim_or_device(s: Seq<char>) -> bool {
    s.len() >= 4 && starts_with_two_separators(s) && is_separator(s[3]) && (s[2] == '.' || (s[2]
        == '?' && s[0] == '\\' && s[1] == '\\' && s[3] == '\\'))
}

/// The position of the first separator at or after `lo`, or the length where there is none.
pub open spec fn next_separator(s: Seq<char>, lo: int) -> int
    decreases s.len() - lo,
{
    if lo < 0 || lo >= s.len() {
        s.len() as int
    } else if is_separator(s[lo]) {
        lo
    } else {
        next_separator(s, lo + 1)
    }
}

/// Where a network share's server name ends: the separator after the two that begin it.
pub open spec fn server_end(s: Seq<char>) -> int {
    next_separator(s, 2)
}

/// Where a network share's share name ends.
pub open spec fn share_end(s: Seq<char>) -> int {
    if server_end(s) < s.len() { next_separator(s, server_end(s) + 1) } else { s.len() as int }
}

/// Whether a path begins with a network share, `\\server\share`: two separators, then a
/// server name and a share name, neither empty.
pub open spec fn has_share(s: Seq<char>) -> bool {
    starts_with_two_separators(s) && !verbatim_or_device(s) && server_end(s) > 2 && server_end(s)
        < s.len() && share_end(s) > server_end(s) + 1
}

/// A network share's server and share names, as written.
pub open spec fn share_of(s: Seq<char>) -> (Seq<char>, Seq<char>) {
    (s.subrange(2, server_end(s)), s.subrange(server_end(s) + 1, share_end(s)))
}

/// What follows a path's drive or network share, or the whole path where it has neither.
pub open spec fn after_prefix(s: Seq<char>) -> Seq<char> {
    if has_drive(s) {
        s.skip(2)
    } else if has_share(s) {
        s.skip(share_end(s))
    } else {
        s
    }
}

/// What follows a path's drive, or the whole path where it has none.
pub open spec fn after_drive(s: Seq<char>) -> Seq<char> {
    if has_drive(s) { s.skip(2) } else { s }
}

/// Whether a path is rooted: what follows its drive begins with a separator.
pub open spec fn rooted(s: Seq<char>) -> bool {
    after_drive(s).len() > 0 && is_separator(after_drive(s)[0])
}

/// Whether a path that is not rooted begins with a `.` component, which stands for the
/// current directory and is kept where every later `.` is dropped.
pub open spec fn leading_dot(s: Seq<char>) -> bool {
    let b = after_drive(s);
    !rooted(s) && b.len() > 0 && b[0] == '.' && (b.len() == 1 || is_separator(b[1]))
}

/// Whether a component between separators counts: it is not empty and not `.`.
pub open spec fn kept_part(p: Seq<char>) -> bool {
    p.len() > 0 && p != seq!['.']
}

/// Reading a text left to right: the components finished so far, and the one being read.
pub open spec fn scan_parts(s: Seq<char>) -> (Seq<Seq<char>>, Seq<char>)
    decreases s.len(),
{
    if s.len() == 0 {
        (Seq::empty(), Seq::empty())
    } else {
        let (done, cur) = scan_parts(s.drop_last());
        if is_separator(s.last()) {
            (if kept_part(cur) { done.push(cur) } else { done }, Seq::empty())
        } else {
            (done, cur.push(s.last()))
        }
    }
}

/// The components of a text split at separators of either kind, with empty components
/// (from repeated or trailing separators) and `.` components left out.
pub open spec fn parts(s: Seq<char>) -> Seq<Seq<char>> {
    let (done, cur) = scan_parts(s);
    if kept_part(cur) { done.push(cur) } else { done }
}

/// A path as Windows paths are compared component by component: its drive letter in
/// either case, its network share, whether it is rooted, whether it begins with `.`, and its
/// components.
pub open spec fn path_key(s: Seq<char>) -> (Option<char>, Option<(Seq<char>, Seq<char>)>, bool, bool, Seq<Seq<char>>) {
    (
        if has_drive(s) { Some(ascii_lower(s[0])) } else { None },
        if has_share(s) { Some(share_of(s)) } else { None },
        rooted(s),
        leading_dot(s),
        parts(after_prefix(s)),
    )
}

/// The position of the first `\` at or after `lo`, or the length where there is none.
pub open spec fn next_backslash(s: Seq<char>, lo: int) -> int
    decreases s.len() - lo,
{
    if lo < 0 || lo >= s.len() {
        s.len() as int
    } else if s[lo] == '\\' {
        lo
    } else {
        next_backslash(s, lo + 1)
    }
}

/// Reading a text left to right, split at `\` alone: the components finished so far, and
/// the one being read.
pub open spec fn scan_verbatim_parts(s: Seq<char>) -> (Seq<Seq<char>>, Seq<char>)
    decreases s.len(),
{
    if s.len() == 0 {
        (Seq::empty(), Seq::empty())
    } else {
        let (done, cur) = scan_verbatim_parts(s.drop_last());
        if s.last() == '\\' {
            (if cur.len() > 0 { done.push(cur) } else { done }, Seq::empty())
        } else {
            (done, cur.push(s.last()))
        }
    }
}

/// The components of a path taken as written: split at `\` alone, with empty components
/// left out and `.` kept.
pub open spec fn verbatim_parts(s: Seq<char>) -> Seq<Seq<char>> {
    let (done, cur) = scan_verbatim_parts(s);
    if cur.len() > 0 { done.push(cur) } else { done }
}

/// Whether a path begins with `\\?\`, written with `\` alone: a path taken as written.
pub open spec fn is_verbatim(s: Seq<char>) -> bool {
    s.len() >= 4 && s[0] == '\\' && s[1] == '\\' && s[2] == '?' && s[3] == '\\'
}

/// Whether a path taken as written names a network share: `\\?\UNC\server\share`.
pub open spec fn verbatim_share(s: Seq<char>) -> bool {
    s.len() >= 8 && s[4] == 'U' && s[5] == 'N' && s[6] == 'C' && is_separator(s[7])
}

/// Whether a path taken as written names a drive: `\\?\C:`, alone or before a separator.
pub open spec fn verbatim_drive(s: Seq<char>) -> bool {
    s.len() >= 6 && (('a' <= s[4] <= 'z') || ('A' <= s[4] <= 'Z')) && s[5] == ':' && (s.len() == 6
        || is_separator(s[6]))
}

/// The prefix of a path that begins with `\\?\` or `\\.\`, as a code that two prefixes
/// share exactly when they are the same (a drive letter in either case), and where what
/// follows the prefix begins.
pub open spec fn special_prefix(s: Seq<char>) -> (Seq<char>, int) {
    if !is_verbatim(s) {
        let a = next_separator(s, 4);
        (seq!['N'] + s.subrange(4, a), a)
    } else if verbatim_share(s) {
        let a = next_backslash(s, 8);
        let b = if a < s.len() { next_backslash(s, a + 1) } else { a };
        let share = if a < s.len() { s.subrange(a + 1, b) } else { Seq::empty() };
        (seq!['W'] + s.subrange(8, a) + seq!['\\'] + share, if share.len() > 0 { b } else { a })
    } else if verbatim_drive(s) {
        (seq!['K', ascii_lower(s[4])], 6)
    } else {
        let a = next_backslash(s, 4);
        (seq!['V'] + s.subrange(4, a), a)
    }
}

/// A path that begins with `\\?\` or `\\.\`, as Windows compares such paths component by
/// component: its prefix, and its components, which for a path taken as written are split
/// at `\` alone and keep `.`.
pub open spec fn special_key(s: Seq<char>) -> (Seq<char>, Seq<Seq<char>>) {
    let (code, at) = special_prefix(s);
    (code, if is_verbatim(s) { verbatim_parts(s.skip(at)) } else { parts(s.skip(at)) })
}

/// Whether two paths have the same components: both begin with `\\?\` or `\\.\` and have
/// the same prefix and components, or neither does and they have the same drive or share,
/// root, leading `.` and components.
pub open spec fn same_components(left: Seq<char>, right: Seq<char>) -> bool {
    if verbatim_or_device(left) && verbatim_or_device(right) {
        special_key(left) == special_key(right)
    } else if !verbatim_or_device(left) && !verbatim_or_device(right) {
        path_key(left) == path_key(right)
    } else {
        false
    }
}

/// Whether two paths name the same file on a case-insensitive filesystem: the same text,
/// the same components as Windows compares them (`/` and `\` alike, repeated separators and
/// `.` components ignored, but for a path taken as written after `\\?\`, where only `\`
/// separates and `.` stays), or the same text once trailing separators are gone and both
/// are lowercased.
pub open spec fn same_file(left: Seq<char>, right: Seq<char>) -> bool {
    left == right || same_components(left, right) || lowercase(trim_separators(left))
        == lowercase(trim_separators(right))
}

/// Every path names the same file as itself, and the relation reads the same either way
/// round.
pub proof fn lemma_same_file_is_reflexive_and_symmetric(a: Seq<char>, b: Seq<char>)
    ensures
        same_file(a, a),
        same_file(a, b) == same_file(b, a),
{
}

/// Whether two character sequences are the same.
fn same_chars(a: &Vec<char>, b: &Vec<char>) -> (r: bool)
    ensures
        r == (a@ == b@),
{
    if a.len() != b.len() {
        return false;
    }
    let mut i: usize = 0;
    while i < a.len()
        invariant
            i <= a.len(),
            a.len() == b.len(),
            a@.take(i as int) == b@.take(i as int),
        decreases a.len() - i,
    {
        if a[i] != b[i] {
            assert(a@[i as int] != b@[i as int]);
            return false;
        }
        assert(a@.take(i as int + 1) =~= b@.take(i as int + 1));
        i += 1;
    }
    assert(a@ =~= a@.take(a.len() as int));
    assert(b@ =~= b@.take(b.len() as int));
    true
}

/// A path's text, lowercased, with its trailing separators gone.
fn normalised(path: &Vec<char>) -> (r: Vec<char>)
    ensures
        r@ == lowercase(trim_separators(path@)),
{
    let mut end = path.len();
    assert(path@.take(end as int) =~= path@);
    while end > 0 && (path[end - 1] == '\\' || path[end - 1] == '/')
        invariant
            end <= path.len(),
            trim_separators(path@) == trim_separators(path@.take(end as int)),
        decreases end,
    {
        assert(path@.take(end as int).drop_last() =~= path@.take(end as int - 1));
        end -= 1;
    }
    let kept = string_of(&crate::spell::slice_of(path, 0, end));
    assert(path@.subrange(0, end as int) =~= path@.take(end as int));
    let lower = to_lower(kept.as_str());
    chars_of(lower.as_str())
}

/// Whether a character separates path components.
fn separator(c: char) -> (r: bool)
    ensures
        r == is_separator(c),
{
    c == '\\' || c == '/'
}

/// Whether a component counts: it is not empty and not `.`.
fn counts(p: &Vec<char>) -> (r: bool)
    ensures
        r == kept_part(p@),
{
    if p.len() == 1 && p[0] == '.' {
        assert(p@ =~= seq!['.']);
        false
    } else {
        p.len() > 0
    }
}

/// The components of `s[lo..]`: split at separators of either kind, with empty and `.`
/// components left out.
fn components_from(s: &Vec<char>, lo: usize) -> (r: Vec<Vec<char>>)
    requires
        lo <= s.len(),
    ensures
        r@.map_values(|p: Vec<char>| p@) == parts(s@.skip(lo as int)),
{
    let mut done: Vec<Vec<char>> = Vec::new();
    let mut cur: Vec<char> = Vec::new();
    let mut i = lo;
    assert(s@.subrange(lo as int, lo as int) =~= Seq::<char>::empty());
    assert(done@.map_values(|p: Vec<char>| p@) =~= Seq::<Seq<char>>::empty());
    while i < s.len()
        invariant
            lo <= i <= s.len(),
            (done@.map_values(|p: Vec<char>| p@), cur@) == scan_parts(s@.subrange(lo as int, i as int)),
        decreases s.len() - i,
    {
        let ghost seen = s@.subrange(lo as int, i as int + 1);
        assert(seen.drop_last() =~= s@.subrange(lo as int, i as int));
        assert(seen.last() == s@[i as int]);
        let ghost was = cur@;
        let ghost finished = done@.map_values(|p: Vec<char>| p@);
        let c = s[i];
        if separator(c) {
            if counts(&cur) {
                done.push(cur);
                assert(done@.map_values(|p: Vec<char>| p@) =~= finished.push(was));
            }
            cur = Vec::new();
            assert(cur@ =~= Seq::<char>::empty());
        } else {
            cur.push(c);
        }
        i += 1;
    }
    let ghost finished = done@.map_values(|p: Vec<char>| p@);
    let ghost was = cur@;
    if counts(&cur) {
        done.push(cur);
        assert(done@.map_values(|p: Vec<char>| p@) =~= finished.push(was));
    }
    assert(s@.subrange(lo as int, s.len() as int) =~= s@.skip(lo as int));
    done
}

/// Whether two lists of components are the same.
fn same_parts(a: &Vec<Vec<char>>, b: &Vec<Vec<char>>) -> (r: bool)
    ensures
        r == (a@.map_values(|p: Vec<char>| p@) == b@.map_values(|p: Vec<char>| p@)),
{
    let ghost va = a@.map_values(|p: Vec<char>| p@);
    let ghost vb = b@.map_values(|p: Vec<char>| p@);
    if a.len() != b.len() {
        assert(va.len() != vb.len());
        return false;
    }
    let mut i: usize = 0;
    while i < a.len()
        invariant
            i <= a.len(),
            a.len() == b.len(),
            va == a@.map_values(|p: Vec<char>| p@),
            vb == b@.map_values(|p: Vec<char>| p@),
            va.take(i as int) == vb.take(i as int),
        decreases a.len() - i,
    {
        if !same_chars(&a[i], &b[i]) {
            assert(va[i as int] != vb[i as int]);
            return false;
        }
        assert(va.take(i as int + 1) =~= vb.take(i as int + 1));
        i += 1;
    }
    assert(va =~= va.take(a.len() as int));
    assert(vb =~= vb.take(b.len() as int));
    true
}

/// The position of the first separator at or after `lo`, or the length where there is none.
fn find_separator(s: &Vec<char>, lo: usize) -> (r: usize)
    requires
        lo <= s.len(),
    ensures
        r == next_separator(s@, lo as int),
        lo <= r <= s.len(),
{
    let mut i = lo;
    while i < s.len() && !separator(s[i])
        invariant
            lo <= i <= s.len(),
            next_separator(s@, i as int) == next_separator(s@, lo as int),
        decreases s.len() - i,
    {
        i += 1;
    }
    i
}

/// Whether a path begins with `\\?\` or `\\.\`.
fn is_verbatim_or_device(s: &Vec<char>) -> (r: bool)
    ensures
        r == verbatim_or_device(s@),
{
    s.len() >= 4 && separator(s[0]) && separator(s[1]) && separator(s[3]) && (s[2] == '.' || (s[2]
        == '?' && s[0] == '\\' && s[1] == '\\' && s[3] == '\\'))
}

/// A path's drive letter (lowercased), its network share, whether it is rooted, whether it
/// begins with `.`, and its components.
fn key_of(s: &Vec<char>) -> (r: (Option<char>, Option<(Vec<char>, Vec<char>)>, bool, bool, Vec<Vec<char>>))
    ensures
        r.0 == path_key(s@).0,
        (match r.1 {
            Some(names) => path_key(s@).1 == Some((names.0@, names.1@)),
            None => path_key(s@).1 is None,
        }),
        r.2 == path_key(s@).2,
        r.3 == path_key(s@).3,
        r.4@.map_values(|p: Vec<char>| p@) == path_key(s@).4,
{
    let drive = s.len() >= 2 && (('a' <= s[0] && s[0] <= 'z') || ('A' <= s[0] && s[0] <= 'Z')) && s[1]
        == ':';
    let head: usize = if drive { 2 } else { 0 };
    assert(after_drive(s@) =~= s@.skip(head as int));
    let letter = if drive { Some(lower_char(s[0])) } else { None };
    let rooted = head < s.len() && separator(s[head]);
    let dot = !rooted && head < s.len() && s[head] == '.' && (head + 1 == s.len() || separator(s[head + 1]));
    let mut share: Option<(Vec<char>, Vec<char>)> = None;
    let mut lo = head;
    if s.len() >= 2 && separator(s[0]) && separator(s[1]) && !is_verbatim_or_device(s) {
        let a = find_separator(s, 2);
        if a > 2 && a < s.len() {
            let b = find_separator(s, a + 1);
            assert(b == share_end(s@));
            if b > a + 1 {
                share = Some((crate::spell::slice_of(s, 2, a), crate::spell::slice_of(s, a + 1, b)));
                lo = b;
            }
        }
    }
    assert(after_prefix(s@) =~= s@.skip(lo as int));
    let comps = components_from(s, lo);
    (letter, share, rooted, dot, comps)
}

/// The position of the first `\` at or after `lo`, or the length where there is none.
fn find_backslash(s: &Vec<char>, lo: usize) -> (r: usize)
    requires
        lo <= s.len(),
    ensures
        r == next_backslash(s@, lo as int),
        lo <= r <= s.len(),
{
    let mut i = lo;
    while i < s.len() && s[i] != '\\'
        invariant
            lo <= i <= s.len(),
            next_backslash(s@, i as int) == next_backslash(s@, lo as int),
        decreases s.len() - i,
    {
        i += 1;
    }
    i
}

/// The components of `s[lo..]` taken as written: split at `\` alone, with empty components
/// left out.
fn verbatim_components_from(s: &Vec<char>, lo: usize) -> (r: Vec<Vec<char>>)
    requires
        lo <= s.len(),
    ensures
        r@.map_values(|p: Vec<char>| p@) == verbatim_parts(s@.skip(lo as int)),
{
    let mut done: Vec<Vec<char>> = Vec::new();
    let mut cur: Vec<char> = Vec::new();
    let mut i = lo;
    assert(s@.subrange(lo as int, lo as int) =~= Seq::<char>::empty());
    assert(done@.map_values(|p: Vec<char>| p@) =~= Seq::<Seq<char>>::empty());
    while i < s.len()
        invariant
            lo <= i <= s.len(),
            (done@.map_values(|p: Vec<char>| p@), cur@) == scan_verbatim_parts(s@.subrange(lo as int, i as int)),
        decreases s.len() - i,
    {
        let ghost seen = s@.subrange(lo as int, i as int + 1);
        assert(seen.drop_last() =~= s@.subrange(lo as int, i as int));
        assert(seen.last() == s@[i as int]);
        let ghost was = cur@;
        let ghost finished = done@.map_values(|p: Vec<char>| p@);
        let c = s[i];
        if c == '\\' {
            if cur.len() > 0 {
                done.push(cur);
                assert(done@.map_values(|p: Vec<char>| p@) =~= finished.push(was));
            }
            cur = Vec::new();
            assert(cur@ =~= Seq::<char>::empty());
        } else {
            cur.push(c);
        }
        i += 1;
    }
    let ghost finished = done@.map_values(|p: Vec<char>| p@);
    let ghost was = cur@;
    if cur.len() > 0 {
        done.push(cur);
        assert(done@.map_values(|p: Vec<char>| p@) =~= finished.push(was));
    }
    assert(s@.subrange(lo as int, s.len() as int) =~= s@.skip(lo as int));
    done
}

/// The key of a path that begins with `\\?\` or `\\.\`: its prefix code and components.
fn special_key_of(s: &Vec<char>) -> (r: (Vec<char>, Vec<Vec<char>>))
    requires
        verbatim_or_device(s@),
    ensures
        r.0@ == special_key(s@).0,
        r.1@.map_values(|p: Vec<char>| p@) == special_key(s@).1,
{
    let verbatim = s[0] == '\\' && s[1] == '\\' && s[2] == '?' && s[3] == '\\';
    let mut code: Vec<char> = Vec::new();
    let at: usize;
    if !verbatim {
        let a = find_separator(s, 4);
        code.push('N');
        let name = crate::spell::slice_of(s, 4, a);
        let mut j: usize = 0;
        while j < name.len()
            invariant
                j <= name.len(),
                code@ == seq!['N'] + name@.take(j as int),
            decreases name.len() - j,
        {
            code.push(name[j]);
            assert(name@.take(j as int + 1) =~= name@.take(j as int).push(name@[j as int]));
            j += 1;
        }
        assert(name@.take(name.len() as int) =~= name@);
        at = a;
    } else if s.len() >= 8 && s[4] == 'U' && s[5] == 'N' && s[6] == 'C' && separator(s[7]) {
        let a = find_backslash(s, 8);
        let b = if a < s.len() { find_backslash(s, a + 1) } else { a };
        let server = crate::spell::slice_of(s, 8, a);
        let share = if a < s.len() { crate::spell::slice_of(s, a + 1, b) } else { Vec::new() };
        assert(a >= s.len() ==> share@ =~= Seq::<char>::empty());
        let mut whole: Vec<char> = Vec::new();
        whole.push('W');
        append_chars(&mut whole, &server);
        whole.push('\\');
        append_chars(&mut whole, &share);
        assert(whole@ =~= seq!['W'] + server@ + seq!['\\'] + share@);
        code = whole;
        at = if share.len() > 0 { b } else { a };
    } else if s.len() >= 6 && (('a' <= s[4] && s[4] <= 'z') || ('A' <= s[4] && s[4] <= 'Z')) && s[5]
        == ':' && (s.len() == 6 || separator(s[6])) {
        code.push('K');
        code.push(lower_char(s[4]));
        assert(code@ =~= seq!['K', ascii_lower(s@[4])]);
        at = 6;
    } else {
        let a = find_backslash(s, 4);
        let name = crate::spell::slice_of(s, 4, a);
        let mut whole: Vec<char> = Vec::new();
        whole.push('V');
        append_chars(&mut whole, &name);
        assert(whole@ =~= seq!['V'] + name@);
        code = whole;
        at = a;
    }
    let comps = if verbatim {
        verbatim_components_from(s, at)
    } else {
        components_from(s, at)
    };
    (code, comps)
}

/// Append the characters of `tail`.
fn append_chars(out: &mut Vec<char>, tail: &Vec<char>)
    ensures
        final(out)@ == old(out)@ + tail@,
{
    let mut j: usize = 0;
    while j < tail.len()
        invariant
            j <= tail.len(),
            out@ == old(out)@ + tail@.take(j as int),
        decreases tail.len() - j,
    {
        out.push(tail[j]);
        assert(tail@.take(j as int + 1) =~= tail@.take(j as int).push(tail@[j as int]));
        j += 1;
    }
    assert(tail@.take(tail.len() as int) =~= tail@);
}

/// Whether two paths have the same components, as `same_components` says.
fn components_match(left: &Vec<char>, right: &Vec<char>) -> (r: bool)
    ensures
        r == same_components(left@, right@),
{
    let vl = is_verbatim_or_device(left);
    let vr = is_verbatim_or_device(right);
    if vl && vr {
        let kl = special_key_of(left);
        let kr = special_key_of(right);
        return same_chars(&kl.0, &kr.0) && same_parts(&kl.1, &kr.1);
    }
    if vl || vr {
        return false;
    }
    let kl = key_of(left);
    let kr = key_of(right);
    let same_drive = match (kl.0, kr.0) {
        (Some(a), Some(b)) => a == b,
        (None, None) => true,
        _ => false,
    };
    let same_share = match (&kl.1, &kr.1) {
        (Some(a), Some(b)) => same_chars(&a.0, &b.0) && same_chars(&a.1, &b.1),
        (None, None) => true,
        _ => false,
    };
    same_drive && same_share && kl.2 == kr.2 && kl.3 == kr.3 && same_parts(&kl.4, &kr.4)
}

/// Whether two paths, as text, name the same file on a case-insensitive filesystem: case,
/// which separator is used, repeated separators, `.` components and a trailing separator
/// do not matter.
pub fn equivalently(left: &str, right: &str) -> (r: bool)
    ensures
        r == same_file(left@, right@),
{
    let l = chars_of(left);
    let r = chars_of(right);
    if same_chars(&l, &r) || components_match(&l, &r) {
        return true;
    }
    let nl = normalised(&l);
    let nr = normalised(&r);
    same_chars(&nl, &nr)
}

// ---- order and duplicates ------------------------------------------------------------

/// How early a profile is shown, lowest first: PowerShell 7, then Windows PowerShell, then
/// Command Prompt, then everything else.
pub open spec fn rank_of(id: Seq<char>) -> u8 {
    if id == "pwsh"@ {
        0
    } else if id == "powershell"@ {
        1
    } else if id == "cmd"@ {
        2
    } else {
        3
    }
}

/// How early the profile with this identifier is shown, lowest first.
pub fn rank(id: &str) -> (r: u8)
    ensures
        r == rank_of(id@),
{
    let chars = chars_of(id);
    if crate::spell::spells(&chars, "pwsh") {
        0
    } else if crate::spell::spells(&chars, "powershell") {
        1
    } else if crate::spell::spells(&chars, "cmd") {
        2
    } else {
        3
    }
}

/// Whether the entry at `x` comes before the one at `y` when sorting by rank and keeping
/// equal ranks in the order they were found.
pub open spec fn ranked_before(ranks: Seq<u8>, x: int, y: int) -> bool {
    ranks[x] < ranks[y] || (ranks[x] == ranks[y] && x < y)
}

/// The order to show entries in: their positions, sorted by rank, with entries of equal
/// rank in the order they were found. Every position appears exactly once.
pub fn order(ranks: &Vec<u8>) -> (r: Vec<usize>)
    ensures
        forall|a: int, b: int|
            0 <= a < b < r@.len() ==> ranked_before(ranks@, #[trigger] r@[a] as int, #[trigger] r@[b] as int),
        forall|a: int| 0 <= a < r@.len() ==> #[trigger] r@[a] < ranks@.len(),
        forall|j: int| 0 <= j < ranks@.len() ==> #[trigger] r@.contains(j as usize),
{
    let n = ranks.len();
    let mut out: Vec<usize> = Vec::new();
    let mut v: u16 = 0;
    while v < 256
        invariant
            v <= 256,
            n == ranks@.len(),
            forall|a: int, b: int|
                0 <= a < b < out@.len() ==> ranked_before(ranks@, #[trigger] out@[a] as int, #[trigger] out@[b] as int),
            forall|a: int| 0 <= a < out@.len() ==> #[trigger] out@[a] < n && ranks@[out@[a] as int] < v,
            forall|j: int| 0 <= j < n && ranks@[j] < v ==> #[trigger] out@.contains(j as usize),
        decreases 256 - v,
    {
        let mut i: usize = 0;
        while i < n
            invariant
                i <= n,
                v < 256,
                n == ranks@.len(),
                forall|a: int, b: int|
                    0 <= a < b < out@.len() ==> ranked_before(ranks@, #[trigger] out@[a] as int, #[trigger] out@[b] as int),
                forall|a: int|
                    0 <= a < out@.len() ==> #[trigger] out@[a] < n && (ranks@[out@[a] as int] < v || (
                    ranks@[out@[a] as int] == v && out@[a] < i)),
                forall|j: int|
                    0 <= j < n && (ranks@[j] < v || (ranks@[j] == v && j < i)) ==> #[trigger] out@.contains(j as usize),
            decreases n - i,
        {
            if ranks[i] as u16 == v {
                let ghost before = out@;
                out.push(i);
                proof {
                    assert forall|j: int|
                        0 <= j < n && (ranks@[j] < v || (ranks@[j] == v && j < i + 1)) implies #[trigger] out@.contains(j as usize) by {
                        if j == i {
                            assert(out@[before.len() as int] == j as usize);
                        } else {
                            assert(before.contains(j as usize));
                            let a = choose|a: int| 0 <= a < before.len() && before[a] == j as usize;
                            assert(out@[a] == j as usize);
                        }
                    }
                }
            } else {
                proof {
                    assert forall|j: int|
                        0 <= j < n && (ranks@[j] < v || (ranks@[j] == v && j < i + 1)) implies #[trigger] out@.contains(j as usize) by {
                        if j == i {
                            assert(ranks@[j] != v);
                        }
                    }
                }
            }
            i += 1;
        }
        v += 1;
    }
    out
}

/// An entry seen as its program's path and its arguments.
pub open spec fn launch_view(e: (String, Vec<String>)) -> (Seq<char>, Seq<Seq<char>>) {
    (e.0@, e.1@.map_values(|s: String| s@))
}

/// Whether two entries would launch the same thing: the same arguments, and paths to the
/// same file.
pub open spec fn duplicates(x: (Seq<char>, Seq<Seq<char>>), y: (Seq<char>, Seq<Seq<char>>)) -> bool {
    x.1 == y.1 && same_file(x.0, y.0)
}

/// The positions of the entries kept when each is dropped if an entry already kept would
/// launch the same thing.
pub open spec fn kept_positions(entries: Seq<(Seq<char>, Seq<Seq<char>>)>, m: int) -> Seq<usize>
    decreases m,
{
    if m <= 0 {
        Seq::empty()
    } else {
        let before = kept_positions(entries, m - 1);
        if exists|t: int| 0 <= t < before.len() && duplicates(entries[#[trigger] before[t] as int], entries[m - 1]) {
            before
        } else {
            before.push((m - 1) as usize)
        }
    }
}

/// Whether the entry at `p` is kept, or would launch what a kept entry before it launches.
pub open spec fn accounted_for(entries: Seq<(Seq<char>, Seq<Seq<char>>)>, kept: Seq<usize>, p: int) -> bool {
    (exists|t: int| 0 <= t < kept.len() && #[trigger] kept[t] == p) || (exists|t: int|
        0 <= t < kept.len() && #[trigger] kept[t] < p && duplicates(entries[kept[t] as int], entries[p]))
}

/// What dropping duplicates keeps: positions in the order the entries came, no two of
/// which would launch the same thing, and every entry dropped would have launched what an
/// earlier kept entry launches.
pub proof fn lemma_dedupe_keeps_one_of_each(entries: Seq<(Seq<char>, Seq<Seq<char>>)>, m: int)
    requires
        0 <= m <= entries.len(),
        entries.len() <= usize::MAX,
    ensures
        ({
            let k = kept_positions(entries, m);
            &&& forall|a: int, b: int| 0 <= a < b < k.len() ==> #[trigger] k[a] < #[trigger] k[b]
            &&& forall|a: int| 0 <= a < k.len() ==> #[trigger] k[a] < m
            &&& forall|a: int, b: int|
                0 <= a < b < k.len() ==> !duplicates(entries[#[trigger] k[a] as int], entries[#[trigger] k[b] as int])
            &&& forall|p: int| 0 <= p < m ==> #[trigger] accounted_for(entries, k, p)
        }),
    decreases m,
{
    if m > 0 {
        lemma_dedupe_keeps_one_of_each(entries, m - 1);
        let before = kept_positions(entries, m - 1);
        let k = kept_positions(entries, m);
        if exists|t: int| 0 <= t < before.len() && duplicates(entries[#[trigger] before[t] as int], entries[m - 1]) {
            assert(k == before);
            assert forall|p: int| 0 <= p < m implies #[trigger] accounted_for(entries, k, p) by {
                if p == m - 1 {
                    let t = choose|t: int| 0 <= t < before.len() && duplicates(entries[#[trigger] before[t] as int], entries[m - 1]);
                    assert(k[t] < p);
                } else {
                    assert(accounted_for(entries, before, p));
                }
            }
        } else {
            assert(k == before.push((m - 1) as usize));
            assert(k[k.len() - 1] as int == m - 1);
            assert(!exists|t: int| 0 <= t < before.len() && duplicates(entries[#[trigger] before[t] as int], entries[m - 1]));
            assert forall|a: int, b: int| 0 <= a < b < k.len() implies !duplicates(
                entries[#[trigger] k[a] as int],
                entries[#[trigger] k[b] as int],
            ) by {
                if b == k.len() - 1 {
                    assert(k[a] == before[a]);
                    assert(k[b] as int == m - 1);
                    assert(!duplicates(entries[before[a] as int], entries[m - 1]));
                    lemma_same_file_is_reflexive_and_symmetric(entries[k[a] as int].0, entries[m - 1].0);
                    if duplicates(entries[k[a] as int], entries[m - 1]) {
                        assert(duplicates(entries[before[a] as int], entries[m - 1]));
                    }
                } else {
                    assert(k[a] == before[a] && k[b] == before[b]);
                }
            }
            assert forall|a: int, b: int| 0 <= a < b < k.len() implies #[trigger] k[a] < #[trigger] k[b] by {
                if b < k.len() - 1 {
                    assert(k[a] == before[a] && k[b] == before[b]);
                } else {
                    assert(k[a] == before[a]);
                    assert(before[a] < m - 1);
                    assert(k[b] as int == m - 1);
                }
            }
            assert forall|p: int| 0 <= p < m implies #[trigger] accounted_for(entries, k, p) by {
                if p == m - 1 {
                    assert(k[k.len() - 1] == p);
                } else {
                    assert(accounted_for(entries, before, p));
                    if exists|t: int| 0 <= t < before.len() && #[trigger] before[t] == p {
                        let t = choose|t: int| 0 <= t < before.len() && #[trigger] before[t] == p;
                        assert(k[t] == p);
                    } else {
                        let t = choose|t: int| 0 <= t < before.len() && #[trigger] before[t] < p && duplicates(entries[before[t] as int], entries[p]);
                        assert(k[t] == before[t]);
                    }
                }
            }
        }
    }
}

/// Whether two argument lists are the same.
fn same_args(a: &Vec<String>, b: &Vec<String>) -> (r: bool)
    ensures
        r == (a@.map_values(|s: String| s@) == b@.map_values(|s: String| s@)),
{
    let ghost va = a@.map_values(|s: String| s@);
    let ghost vb = b@.map_values(|s: String| s@);
    if a.len() != b.len() {
        assert(va.len() != vb.len());
        return false;
    }
    let mut i: usize = 0;
    while i < a.len()
        invariant
            i <= a.len(),
            a.len() == b.len(),
            va == a@.map_values(|s: String| s@),
            vb == b@.map_values(|s: String| s@),
            va.take(i as int) == vb.take(i as int),
        decreases a.len() - i,
    {
        let x = chars_of(a[i].as_str());
        let y = chars_of(b[i].as_str());
        if !same_chars(&x, &y) {
            assert(va[i as int] != vb[i as int]);
            return false;
        }
        assert(va.take(i as int + 1) =~= vb.take(i as int + 1));
        i += 1;
    }
    assert(va =~= va.take(a.len() as int));
    assert(vb =~= vb.take(b.len() as int));
    true
}

/// The positions of the entries to keep: an entry is dropped when one already kept would
/// launch the same thing, so the first of each set of duplicates survives.
pub fn dedupe(entries: &Vec<(String, Vec<String>)>) -> (r: Vec<usize>)
    ensures
        r@ == kept_positions(entries@.map_values(|e: (String, Vec<String>)| launch_view(e)), entries@.len() as int),
{
    let ghost es = entries@.map_values(|e: (String, Vec<String>)| launch_view(e));
    let mut kept: Vec<usize> = Vec::new();
    let mut m: usize = 0;
    while m < entries.len()
        invariant
            m <= entries.len(),
            es == entries@.map_values(|e: (String, Vec<String>)| launch_view(e)),
            kept@ == kept_positions(es, m as int),
            forall|t: int| 0 <= t < kept@.len() ==> #[trigger] kept@[t] < m,
        decreases entries.len() - m,
    {
        let mut found = false;
        let mut t: usize = 0;
        while t < kept.len()
            invariant
                t <= kept.len(),
                m < entries.len(),
                es == entries@.map_values(|e: (String, Vec<String>)| launch_view(e)),
                forall|u: int| 0 <= u < kept@.len() ==> #[trigger] kept@[u] < m,
                found <==> exists|u: int| 0 <= u < t && duplicates(es[#[trigger] kept@[u] as int], es[m as int]),
            decreases kept.len() - t,
        {
            let k = kept[t];
            let same = same_args(&entries[k].1, &entries[m].1) && equivalently(
                entries[k].0.as_str(),
                entries[m].0.as_str(),
            );
            if same {
                assert(duplicates(es[kept@[t as int] as int], es[m as int]));
                found = true;
            }
            t += 1;
        }
        if !found {
            kept.push(m);
        }
        m += 1;
    }
    kept
}

// ---- what to try on PATH -------------------------------------------------------------

/// Whether a name is one file name on every platform: it holds no separator and no drive
/// colon, and is not `.` or `..`.
pub open spec fn single_file_name(name: Seq<char>) -> bool {
    !name.contains('/') && !name.contains('\\') && !name.contains(':') && name != seq!['.'] && name
        != seq!['.', '.']
}

/// Whether a file name has a `.` after its first character, which is where `Path::extension`
/// finds one: a name that starts with its only `.` is a hidden file with no extension.
pub open spec fn dotted(name: Seq<char>) -> bool {
    exists|i: int| 1 <= i < name.len() && #[trigger] name[i] == '.'
}

/// Whether a name carries an extension, as `Path::extension` reads it.
///
/// Calls `std::path::Path::extension`. Claimed, from its documentation and that of
/// `Path::file_name`: a name with no `.` in it has no extension, and a name that is one file
/// name on every platform has one exactly when a `.` follows its first character. Where a
/// name holding separators is split into components depends on the platform and is left
/// unsaid.
#[verifier::external_body]
fn path_has_extension(name: &str) -> (r: bool)
    ensures
        !name@.contains('.') ==> !r,
        single_file_name(name@) ==> (r <==> dotted(name@)),
{
    std::path::Path::new(name).extension().is_some()
}

/// The extensions `PATHEXT` falls back to when it is not set.
pub open spec fn default_pathext() -> Seq<char> {
    ".COM;.EXE;.BAT;.CMD"@
}

/// What `PATHEXT` holds, or its default when it is not set.
pub open spec fn pathext_text(pathext: Option<&str>) -> Seq<char> {
    match pathext {
        Some(p) => p@,
        None => default_pathext(),
    }
}

/// The non-empty pieces of a `;`-separated list, in order.
pub open spec fn list_pieces(s: Seq<char>, current: Seq<char>) -> Seq<Seq<char>>
    decreases s.len(),
{
    if s.len() == 0 {
        if current.len() == 0 { Seq::empty() } else { seq![current] }
    } else if s[0] == ';' {
        (if current.len() == 0 { Seq::empty() } else { seq![current] }) + list_pieces(s.drop_first(), Seq::empty())
    } else {
        list_pieces(s.drop_first(), current.push(s[0]))
    }
}

/// The extensions to try for a name: none beyond the name itself when it already has one;
/// otherwise the bare name first, then each of `PATHEXT`, lowercased.
pub open spec fn extensions_for(has_extension: bool, pathext: Seq<char>) -> Seq<Seq<char>> {
    if has_extension {
        seq![Seq::empty()]
    } else {
        seq![Seq::<char>::empty()] + list_pieces(pathext, Seq::empty()).map_values(|p: Seq<char>| lowercase(p))
    }
}

/// The file names to try for a name given whether it already has an extension and what
/// `PATHEXT` holds, if it is set.
pub fn extensions_to_try(has_extension: bool, pathext: Option<&str>) -> (r: Vec<String>)
    ensures
        r@.map_values(|s: String| s@) == extensions_for(has_extension, pathext_text(pathext)),
{
    let mut out: Vec<String> = Vec::new();
    out.push(String::new());
    if has_extension {
        assert(out@.map_values(|s: String| s@) =~= seq![Seq::<char>::empty()]);
        return out;
    }
    let chars = match pathext {
        Some(p) => chars_of(p),
        None => chars_of(".COM;.EXE;.BAT;.CMD"),
    };
    let ghost text = chars@;
    let ghost head = seq![Seq::<char>::empty()];
    let mut start: usize = 0;
    let mut i: usize = 0;
    assert(chars@.skip(0) =~= chars@);
    assert(chars@.subrange(0, 0) =~= Seq::<char>::empty());
    assert(out@.map_values(|s: String| s@) =~= head);
    while i < chars.len()
        invariant
            start <= i <= chars.len(),
            text == chars@,
            head + list_pieces(text, Seq::empty()).map_values(|p: Seq<char>| lowercase(p))
                == out@.map_values(|s: String| s@) + list_pieces(
                text.skip(i as int),
                text.subrange(start as int, i as int),
            ).map_values(|p: Seq<char>| lowercase(p)),
        decreases chars.len() - i,
    {
        let ghost before = out@.map_values(|s: String| s@);
        let ghost cur = text.subrange(start as int, i as int);
        let ghost rest = text.skip(i as int + 1);
        assert(text.skip(i as int).drop_first() =~= rest);
        if chars[i] == ';' {
            let ghost tail = list_pieces(rest, Seq::empty());
            assert(list_pieces(text.skip(i as int), cur) == (if cur.len() == 0 {
                Seq::<Seq<char>>::empty()
            } else {
                seq![cur]
            }) + tail);
            if start < i {
                let piece = string_of(&crate::spell::slice_of(&chars, start, i));
                let lowered = to_lower(piece.as_str());
                out.push(lowered);
                assert(out@.map_values(|s: String| s@) =~= before.push(lowercase(cur)));
                assert((seq![cur] + tail).map_values(|p: Seq<char>| lowercase(p)) =~= seq![
                    lowercase(cur),
                ] + tail.map_values(|p: Seq<char>| lowercase(p)));
            } else {
                assert(cur =~= Seq::<char>::empty());
                assert((Seq::<Seq<char>>::empty() + tail) =~= tail);
            }
            start = i + 1;
            assert(text.subrange(start as int, start as int) =~= Seq::<char>::empty());
        } else {
            assert(cur.push(text[i as int]) =~= text.subrange(start as int, i as int + 1));
        }
        i += 1;
    }
    let ghost cur = text.subrange(start as int, i as int);
    assert(text.skip(i as int) =~= Seq::<char>::empty());
    if start < i {
        let ghost before = out@.map_values(|s: String| s@);
        let piece = string_of(&crate::spell::slice_of(&chars, start, i));
        let lowered = to_lower(piece.as_str());
        out.push(lowered);
        assert(list_pieces(Seq::<char>::empty(), cur) == seq![cur]);
        assert(out@.map_values(|s: String| s@) =~= before.push(lowercase(cur)));
        assert(seq![cur].map_values(|p: Seq<char>| lowercase(p)) =~= seq![lowercase(cur)]);
    } else {
        assert(cur =~= Seq::<char>::empty());
        assert(Seq::<Seq<char>>::empty().map_values(|p: Seq<char>| lowercase(p)) =~= Seq::<Seq<char>>::empty());
    }
    out
}

/// The file names to try for `name`: as written when it already has an extension, and
/// otherwise bare first, then with each of `PATHEXT` (or its default when it is not set),
/// lowercased, because `CreateProcess` tries them in that order.
pub fn search_extensions(name: &str, pathext: Option<&str>) -> (r: Vec<String>)
    ensures
        exists|has: bool| r@.map_values(|s: String| s@) == #[trigger] extensions_for(has, pathext_text(pathext)),
        !name@.contains('.') ==> r@.map_values(|s: String| s@) == extensions_for(false, pathext_text(pathext)),
        single_file_name(name@) ==> r@.map_values(|s: String| s@) == extensions_for(
            dotted(name@),
            pathext_text(pathext),
        ),
{
    let has = path_has_extension(name);
    let r = extensions_to_try(has, pathext);
    r
}

} // verus!
