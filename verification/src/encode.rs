//! The byte sequences themselves.
//!
//! Every table here is xterm's, because xterm is what the programs on the other end of the
//! pty were written against. Each sequence is described twice: once as a specification over
//! byte sequences, and once as the code that builds it, which is proved to build exactly
//! that.
//!
//! A modified special key becomes `CSI 1;<m><final>` or `CSI <n>;<m>~`, where `<m>` is
//! `1 + Shift(1) + Alt(2) + Control(4) + Super(8)`, a plain decimal parameter that never
//! exceeds 16. Shift is always transmitted. The function keys are not contiguous: xterm's
//! PC-style table skips `CSI 16~`, `CSI 22~`, `CSI 27~` and `CSI 30~`, and stops at F20.
use vstd::prelude::*;

use crate::chord::{base_character, character_of, key_character, unshifted, Key, Modifiers};
use crate::key::{KeyEvent, KeyKind};
use crate::modes::{KeyboardFlags, Modes, MouseEncoding, MouseMode};
use crate::mouse::{MouseAction, MouseButton, MouseEvent};
use crate::spell::{chars_of, decimal_bytes, push_decimal, push_utf8, utf8, utf8_seq};

verus! {

/// `ESC`, which starts every sequence this module emits.
pub const ESC: u8 = 0x1b;

/// An optional byte sequence, seen as its contents.
pub open spec fn seen(r: Option<Vec<u8>>) -> Option<Seq<u8>> {
    match r {
        Some(v) => Some(v@),
        None => None,
    }
}

// ---- the legacy encoding -------------------------------------------------------------

/// xterm's `<m>`: one more than the sum of the held modifiers' weights.
pub open spec fn modifier_number(mods: Modifiers) -> nat {
    1 + (if mods.shift { 1nat } else { 0nat }) + (if mods.alt { 2nat } else { 0nat }) + (if mods.ctrl {
        4nat
    } else {
        0nat
    }) + (if mods.logo { 8nat } else { 0nat })
}

/// The value of xterm's `<m>` parameter for a set of modifiers. The kitty protocol's
/// modifier field is the same number.
fn modifier_param(mods: Modifiers) -> (m: u8)
    ensures
        m == modifier_number(mods),
        1 <= m <= 16,
{
    let mut m: u8 = 1;
    if mods.shift {
        m += 1;
    }
    if mods.alt {
        m += 2;
    }
    if mods.ctrl {
        m += 4;
    }
    if mods.logo {
        m += 8;
    }
    m
}

/// The parameter a key's sequence carries, and the event type when one is reported.
#[derive(Clone, Copy, PartialEq, Eq, Debug, Structural)]
pub struct Params {
    /// `1 +` the modifiers held.
    pub m: u8,
    /// The kitty event type: 2 for a repeat, 3 for a release, `None` for a press.
    pub event: Option<u8>,
}

impl Params {
    /// Whether the parameter can be left out of the sequence entirely.
    pub open spec fn spec_is_default(self) -> bool {
        self.m == 1 && self.event is None
    }

    /// The parameter for the legacy encoding, which has no event types at all.
    fn plain(m: u8) -> (r: Params)
        ensures
            r == (Params { m, event: None }),
    {
        Params { m, event: None }
    }

    /// Whether the parameter can be left out of the sequence entirely.
    fn is_default(self) -> (r: bool)
        ensures
            r == self.spec_is_default(),
    {
        self.m == 1 && self.event.is_none()
    }
}

/// The parameter as written: `<m>`, and `:<event>` after it when there is one.
pub open spec fn param_text(p: Params) -> Seq<u8> {
    decimal_bytes(p.m as nat) + match p.event {
        Some(e) => seq![0x3a] + decimal_bytes(e as nat),
        None => Seq::empty(),
    }
}

/// `CSI <lead>;<m><final>`.
pub open spec fn spec_parameterised(lead: nat, p: Params, final_byte: u8) -> Seq<u8> {
    seq![ESC, 0x5b] + decimal_bytes(lead) + seq![0x3b] + param_text(p) + seq![final_byte]
}

/// An arrow, Home or End: `SS3` or `CSI` and the final byte when nothing is carried, the
/// parameter form otherwise.
pub open spec fn spec_cursor(final_byte: u8, p: Params, app_cursor_keys: bool) -> Seq<u8> {
    if p.spec_is_default() {
        seq![ESC, if app_cursor_keys { 0x4f } else { 0x5b }, final_byte]
    } else {
        spec_parameterised(1, p, final_byte)
    }
}

/// `CSI <n>~`, or its parameter form.
pub open spec fn spec_tilde(n: nat, p: Params) -> Seq<u8> {
    if p.spec_is_default() {
        seq![ESC, 0x5b] + decimal_bytes(n) + seq![0x7e]
    } else {
        spec_parameterised(n, p, 0x7e)
    }
}

/// Shift+Tab: the short `CSI Z` for Shift alone, the parameter form otherwise.
pub open spec fn spec_back_tab(p: Params) -> Seq<u8> {
    if p.m == 2 && p.event is None {
        seq![ESC, 0x5b, 0x5a]
    } else {
        spec_parameterised(1, p, 0x5a)
    }
}

/// `SS3 <final>`, or `CSI 1;<m><final>` once a modifier has to be carried.
pub open spec fn spec_ss3(final_byte: u8, p: Params) -> Seq<u8> {
    if p.spec_is_default() {
        seq![ESC, 0x4f, final_byte]
    } else {
        spec_parameterised(1, p, final_byte)
    }
}

/// The final byte of F1 to F4: `P`, `Q`, `R`, `S`.
pub open spec fn ss3_final(n: u8) -> u8 {
    if n == 1 { 0x50 } else if n == 2 { 0x51 } else if n == 3 { 0x52 } else { 0x53 }
}

/// The number in `CSI <n>~` for F5 to F20, from xterm's PC-style table, gaps included.
pub open spec fn tilde_number(n: u8) -> Option<nat> {
    if n == 5 { Some(15) } else if n == 6 { Some(17) } else if n == 7 { Some(18) }
    else if n == 8 { Some(19) } else if n == 9 { Some(20) } else if n == 10 { Some(21) }
    else if n == 11 { Some(23) } else if n == 12 { Some(24) } else if n == 13 { Some(25) }
    else if n == 14 { Some(26) } else if n == 15 { Some(28) } else if n == 16 { Some(29) }
    else if n == 17 { Some(31) } else if n == 18 { Some(32) } else if n == 19 { Some(33) }
    else if n == 20 { Some(34) } else { None }
}

/// A function key's sequence: F1 to F4 are `SS3`, F5 to F20 the tilde table, and the rest
/// have none.
pub open spec fn spec_function(n: u8, p: Params) -> Option<Seq<u8>> {
    if 1 <= n <= 4 {
        Some(spec_ss3(ss3_final(n), p))
    } else {
        match tilde_number(n) {
            Some(t) => Some(spec_tilde(t, p)),
            None => None,
        }
    }
}

/// The sequence of a key whose modifiers travel inside it, in the legacy encoding.
pub open spec fn spec_parameterised_key(event: KeyEvent, modes: Modes) -> Option<Seq<u8>> {
    let p = Params { m: modifier_number(event.mods) as u8, event: None };
    let app = modes.app_cursor_keys;
    match event.key {
        Key::Up => Some(spec_cursor(0x41, p, app)),
        Key::Down => Some(spec_cursor(0x42, p, app)),
        Key::Right => Some(spec_cursor(0x43, p, app)),
        Key::Left => Some(spec_cursor(0x44, p, app)),
        Key::Home => Some(spec_cursor(0x48, p, app)),
        Key::End => Some(spec_cursor(0x46, p, app)),
        Key::Insert => Some(spec_tilde(2, p)),
        Key::Delete => Some(spec_tilde(3, p)),
        Key::PageUp => Some(spec_tilde(5, p)),
        Key::PageDown => Some(spec_tilde(6, p)),
        Key::Tab => if event.mods.shift {
            Some(spec_back_tab(p))
        } else {
            None
        },
        Key::F(n) => spec_function(n, p),
        _ => None,
    }
}

/// The control byte of a character: a letter's position in the alphabet, NUL for `@` and
/// space, 0x1b to 0x1f for `[ \ ] ^ _`, and DEL for `?`.
pub open spec fn control_code(ch: char) -> Option<u8> {
    if 'a' <= ch <= 'z' {
        Some((ch as u32 - 96) as u8)
    } else if 'A' <= ch <= 'Z' {
        Some((ch as u32 - 64) as u8)
    } else if ch == ' ' || ch == '@' {
        Some(0x00)
    } else if ch == '[' {
        Some(0x1b)
    } else if ch == '\\' {
        Some(0x1c)
    } else if ch == ']' {
        Some(0x1d)
    } else if ch == '^' {
        Some(0x1e)
    } else if ch == '_' {
        Some(0x1f)
    } else if ch == '?' {
        Some(0x7f)
    } else {
        None
    }
}

/// The bytes of a key that comes down to a character or a single control byte.
///
/// Control turns a character into its control byte when it has one; one it has none for is
/// sent as the character itself.
pub open spec fn spec_literal(key: Key, held: Modifiers, modes: Modes) -> Option<Seq<u8>> {
    match key_character(key) {
        Some(ch) => if held.ctrl && control_code(ch) is Some {
            Some(seq![control_code(ch)->0])
        } else {
            Some(utf8(ch))
        },
        None => match key {
            Key::Enter => Some(seq![if modes.newline { 0x0a } else { 0x0d }]),
            Key::Backspace => Some(seq![0x7fu8]),
            Key::Escape => Some(seq![ESC]),
            Key::Tab => Some(seq![0x09]),
            _ => None,
        },
    }
}

/// What the legacy encoding sends for a key event: nothing for a release, the parameter
/// form for the keys that have one, and otherwise the literal bytes with an `ESC` in front
/// when Alt is held.
pub open spec fn spec_legacy_key(event: KeyEvent, modes: Modes) -> Option<Seq<u8>> {
    if event.kind == KeyKind::Release {
        None
    } else {
        match spec_parameterised_key(event, modes) {
            Some(b) => Some(b),
            None => match spec_literal(event.key, event.mods, modes) {
                Some(b) => Some((if event.mods.alt { seq![ESC] } else { Seq::empty() }) + b),
                None => None,
            },
        }
    }
}

/// `CSI 1;<m><final>`, the parameter form of a cursor key or a shifted tab.
fn parameterised(lead: u16, p: Params, final_byte: u8) -> (r: Vec<u8>)
    ensures
        r@ == spec_parameterised(lead as nat, p, final_byte),
{
    let mut out: Vec<u8> = Vec::new();
    out.push(ESC);
    out.push(0x5b);
    push_decimal(&mut out, lead as u64);
    out.push(0x3b);
    push_decimal(&mut out, p.m as u64);
    match p.event {
        Some(e) => {
            out.push(0x3a);
            push_decimal(&mut out, e as u64);
        },
        None => {},
    }
    out.push(final_byte);
    assert(out@ =~= spec_parameterised(lead as nat, p, final_byte));
    out
}

/// An arrow, Home, or End. Only the unmodified form follows `DECCKM`.
fn cursor(final_byte: u8, p: Params, modes: &Modes) -> (r: Vec<u8>)
    ensures
        r@ == spec_cursor(final_byte, p, modes.app_cursor_keys),
{
    if p.is_default() {
        let lead = if modes.app_cursor_keys { 0x4f } else { 0x5b };
        let mut out: Vec<u8> = Vec::new();
        out.push(ESC);
        out.push(lead);
        out.push(final_byte);
        assert(out@ =~= spec_cursor(final_byte, p, modes.app_cursor_keys));
        out
    } else {
        parameterised(1, p, final_byte)
    }
}

/// `CSI <n>~` and its parameter form, for the editing keypad and F5 upward.
fn tilde(n: u16, p: Params) -> (r: Vec<u8>)
    ensures
        r@ == spec_tilde(n as nat, p),
{
    if p.is_default() {
        let mut out: Vec<u8> = Vec::new();
        out.push(ESC);
        out.push(0x5b);
        push_decimal(&mut out, n as u64);
        out.push(0x7e);
        assert(out@ =~= spec_tilde(n as nat, p));
        out
    } else {
        parameterised(n, p, 0x7e)
    }
}

/// Shift+Tab: the short `CSI Z` for Shift alone.
fn back_tab(p: Params) -> (r: Vec<u8>)
    ensures
        r@ == spec_back_tab(p),
{
    if p.m == 2 && p.event.is_none() {
        let mut out: Vec<u8> = Vec::new();
        out.push(ESC);
        out.push(0x5b);
        out.push(0x5a);
        assert(out@ =~= spec_back_tab(p));
        out
    } else {
        parameterised(1, p, 0x5a)
    }
}

/// `SS3 <final>`, or `CSI 1;<m><final>` once a modifier has to be carried.
fn function_ss3(final_byte: u8, p: Params) -> (r: Vec<u8>)
    ensures
        r@ == spec_ss3(final_byte, p),
{
    if p.is_default() {
        let mut out: Vec<u8> = Vec::new();
        out.push(ESC);
        out.push(0x4f);
        out.push(final_byte);
        assert(out@ =~= spec_ss3(final_byte, p));
        out
    } else {
        parameterised(1, p, final_byte)
    }
}

/// The number in `CSI <n>~` for a function key from F5 upward, or `None` for one the table
/// does not reach.
fn function_tilde(n: u8) -> (r: Option<u16>)
    ensures
        match r {
            Some(t) => tilde_number(n) == Some(t as nat),
            None => tilde_number(n) is None,
        },
{
    match n {
        5 => Some(15),
        6 => Some(17),
        7 => Some(18),
        8 => Some(19),
        9 => Some(20),
        10 => Some(21),
        11 => Some(23),
        12 => Some(24),
        13 => Some(25),
        14 => Some(26),
        15 => Some(28),
        16 => Some(29),
        17 => Some(31),
        18 => Some(32),
        19 => Some(33),
        20 => Some(34),
        _ => None,
    }
}

/// The final byte of F1 to F4.
fn ss3_byte(n: u8) -> (r: u8)
    ensures
        r == ss3_final(n),
{
    if n == 1 {
        0x50
    } else if n == 2 {
        0x51
    } else if n == 3 {
        0x52
    } else {
        0x53
    }
}

/// A function key. F21 to F24 are past the end of xterm's table and have no sequence.
fn function(n: u8, p: Params) -> (r: Option<Vec<u8>>)
    ensures
        seen(r) == spec_function(n, p),
{
    if 1 <= n && n <= 4 {
        Some(function_ss3(ss3_byte(n), p))
    } else {
        match function_tilde(n) {
            Some(t) => Some(tilde(t, p)),
            None => None,
        }
    }
}

/// The keys whose modifiers travel inside the sequence.
fn parameterised_key(event: &KeyEvent, modes: &Modes) -> (r: Option<Vec<u8>>)
    ensures
        seen(r) == spec_parameterised_key(*event, *modes),
{
    let p = Params::plain(modifier_param(event.mods));
    match event.key {
        Key::Up => Some(cursor(0x41, p, modes)),
        Key::Down => Some(cursor(0x42, p, modes)),
        Key::Right => Some(cursor(0x43, p, modes)),
        Key::Left => Some(cursor(0x44, p, modes)),
        Key::Home => Some(cursor(0x48, p, modes)),
        Key::End => Some(cursor(0x46, p, modes)),
        Key::Insert => Some(tilde(2, p)),
        Key::Delete => Some(tilde(3, p)),
        Key::PageUp => Some(tilde(5, p)),
        Key::PageDown => Some(tilde(6, p)),
        Key::Tab => if event.mods.shift {
            Some(back_tab(p))
        } else {
            None
        },
        Key::F(n) => function(n, p),
        _ => None,
    }
}

/// The control byte for a character, if it has one.
fn control_byte(ch: char) -> (r: Option<u8>)
    ensures
        r == control_code(ch),
{
    if 'a' <= ch && ch <= 'z' {
        Some(((ch as u32) - 96) as u8)
    } else if 'A' <= ch && ch <= 'Z' {
        Some(((ch as u32) - 64) as u8)
    } else if ch == ' ' || ch == '@' {
        Some(0x00)
    } else if ch == '[' {
        Some(0x1b)
    } else if ch == '\\' {
        Some(0x1c)
    } else if ch == ']' {
        Some(0x1d)
    } else if ch == '^' {
        Some(0x1e)
    } else if ch == '_' {
        Some(0x1f)
    } else if ch == '?' {
        Some(0x7f)
    } else {
        None
    }
}

/// One byte, as a sequence.
fn single(b: u8) -> (r: Vec<u8>)
    ensures
        r@ == seq![b],
{
    let mut out: Vec<u8> = Vec::new();
    out.push(b);
    assert(out@ =~= seq![b]);
    out
}

/// The keys that come down to a character or a single control byte.
fn literal(key: Key, held: Modifiers, modes: &Modes) -> (r: Option<Vec<u8>>)
    ensures
        seen(r) == spec_literal(key, held, *modes),
{
    match character_of(key) {
        Some(ch) => {
            if held.ctrl {
                match control_byte(ch) {
                    Some(b) => {
                        return Some(single(b));
                    },
                    None => {},
                }
            }
            let mut out: Vec<u8> = Vec::new();
            push_utf8(&mut out, ch);
            assert(out@ =~= utf8(ch));
            Some(out)
        },
        None => match key {
            Key::Enter => Some(single(if modes.newline { 0x0a } else { 0x0d })),
            Key::Backspace => Some(single(0x7f)),
            Key::Escape => Some(single(ESC)),
            Key::Tab => Some(single(0x09)),
            _ => None,
        },
    }
}

/// The legacy encoding of a key event.
fn legacy_key(event: &KeyEvent, modes: &Modes) -> (r: Option<Vec<u8>>)
    ensures
        seen(r) == spec_legacy_key(*event, *modes),
{
    if event.kind == KeyKind::Release {
        return None;
    }
    match parameterised_key(event, modes) {
        Some(bytes) => Some(bytes),
        None => {
            let mut out: Vec<u8> = Vec::new();
            if event.mods.alt {
                out.push(ESC);
            }
            match literal(event.key, event.mods, modes) {
                Some(bytes) => {
                    let mut tail = bytes;
                    out.append(&mut tail);
                    Some(out)
                },
                None => None,
            }
        },
    }
}

// ---- the kitty keyboard protocol -----------------------------------------------------
//
// A program opts in to the protocol by name, in stages, and a terminal that speaks it reports
// what it was asked for and nothing more. What it adds is a way to say what the legacy bytes
// cannot: a release, a repeat, an Escape that is not the start of a sequence, and the text a
// key produced.

/// The event type sub-field's value: nothing for a press, or when event types were not asked
/// for; 2 for a repeat and 3 for a release.
pub open spec fn spec_event_type(kind: KeyKind, typed: bool) -> Option<u8> {
    if !typed {
        None
    } else {
        match kind {
            KeyKind::Press => None,
            KeyKind::Repeat => Some(2),
            KeyKind::Release => Some(3),
        }
    }
}

/// Whether the protocol reports a key in the sequence it already had: the arrows, Home,
/// End, the editing keypad, and F1 to F12.
pub open spec fn spec_sequence_form(key: Key) -> bool {
    match key {
        Key::Up | Key::Down | Key::Right | Key::Left | Key::Home | Key::End | Key::Insert
        | Key::Delete | Key::PageUp | Key::PageDown => true,
        Key::F(n) => 1 <= n <= 12,
        _ => false,
    }
}

/// Whether the legacy encoding has bytes of its own for a key: Escape, Enter, Tab,
/// Backspace, and every key that produces a character.
pub open spec fn spec_has_legacy_bytes(key: Key) -> bool {
    ||| key == Key::Escape
    ||| key == Key::Enter
    ||| key == Key::Tab
    ||| key == Key::Backspace
    ||| key_character(key) is Some
}

/// Whether the protocol's disambiguate flag moves a key to an escape code: Escape, and any
/// key held with Alt or Control, except Enter, Tab and Backspace.
pub open spec fn spec_ambiguous(event: KeyEvent) -> bool {
    match event.key {
        Key::Enter | Key::Tab | Key::Backspace => false,
        Key::Escape => true,
        _ => event.mods.alt || event.mods.ctrl,
    }
}

/// The code point the protocol names a key by: the four control keys keep their control
/// codes, F13 to F35 and the lock and system keys are numbered in the private use area, and
/// a key that produces a character is named by that character with Shift let go.
pub open spec fn spec_key_code(key: Key) -> Option<u32> {
    match key {
        Key::Escape => Some(27),
        Key::Enter => Some(13),
        Key::Tab => Some(9),
        Key::Backspace => Some(127),
        Key::F(n) => if 13 <= n <= 35 {
            Some((57376 + (n - 13)) as u32)
        } else {
            None
        },
        Key::CapsLock => Some(57358),
        Key::ScrollLock => Some(57359),
        Key::NumLock => Some(57360),
        Key::PrintScreen => Some(57361),
        Key::Pause => Some(57362),
        Key::Menu => Some(57363),
        _ => match key_character(key) {
            Some(c) => Some(base_character(c) as u32),
            None => None,
        },
    }
}

/// The code points of a piece of text.
pub open spec fn code_points(s: Seq<char>) -> Seq<u32> {
    s.map_values(|c: char| c as u32)
}

/// The associated text carried in a key's escape code: only under both the all-keys and the
/// associated-text flags, and only when the key produced some.
pub open spec fn spec_kitty_text(event: KeyEvent, flags: KeyboardFlags, all: bool) -> Option<
    Seq<u32>,
> {
    if !all || !flags.associated_text {
        None
    } else {
        match event.text {
            Some(t) => if t@.len() == 0 {
                None
            } else {
                Some(code_points(t@))
            },
            None => None,
        }
    }
}

/// Code points in decimal, separated by colons.
pub open spec fn points_text(points: Seq<u32>) -> Seq<u8>
    decreases points.len(),
{
    if points.len() == 0 {
        Seq::empty()
    } else if points.len() == 1 {
        decimal_bytes(points[0] as nat)
    } else {
        points_text(points.drop_last()) + seq![0x3a] + decimal_bytes(points.last() as nat)
    }
}

/// `CSI <code> ; <mods> ; <text> u`, with each field left out when it has nothing to say.
/// A modifier field that would be left out is written `1` when text follows it.
pub open spec fn spec_csi_u(code: u32, p: Params, text: Option<Seq<u32>>) -> Seq<u8> {
    seq![ESC, 0x5b] + decimal_bytes(code as nat) + (if text is Some && p.spec_is_default() {
        seq![0x3b, 0x31]
    } else if !p.spec_is_default() {
        seq![0x3b] + param_text(p)
    } else {
        Seq::empty()
    }) + match text {
        Some(t) => seq![0x3b] + points_text(t),
        None => Seq::empty(),
    } + seq![0x75]
}

/// The lead number and final byte of a key the protocol reports in its own sequence.
pub open spec fn form_of(key: Key) -> (nat, u8) {
    match key {
        Key::Up => (1, 0x41),
        Key::Down => (1, 0x42),
        Key::Right => (1, 0x43),
        Key::Left => (1, 0x44),
        Key::Home => (1, 0x48),
        Key::End => (1, 0x46),
        Key::Insert => (2, 0x7e),
        Key::Delete => (3, 0x7e),
        Key::PageUp => (5, 0x7e),
        Key::PageDown => (6, 0x7e),
        Key::F(n) => if n <= 4 {
            (1, ss3_final(n))
        } else {
            (
                match tilde_number(n) {
                    Some(t) => t,
                    None => 1,
                },
                0x7e,
            )
        },
        _ => (1, 0x7e),
    }
}

/// What the kitty keyboard protocol sends for a key event, or `None` where it leaves the key
/// to the legacy encoding.
pub open spec fn spec_kitty_key(event: KeyEvent, modes: Modes) -> Option<Seq<u8>> {
    let flags = modes.keyboard;
    let typed = flags.event_types;
    let p = Params {
        m: modifier_number(event.mods) as u8,
        event: spec_event_type(event.kind, typed),
    };
    let all = flags.all_keys;
    let numbered = spec_key_code(event.key) is Some && !spec_has_legacy_bytes(event.key);
    let escaped = all || numbered || (flags.disambiguate && spec_ambiguous(event));
    if flags.spec_is_empty() {
        None
    } else if event.kind == KeyKind::Release && !typed {
        None
    } else if spec_sequence_form(event.key) {
        if p.event is Some {
            Some(spec_parameterised(form_of(event.key).0, p, form_of(event.key).1))
        } else {
            None
        }
    } else if !escaped && p.event is None {
        None
    } else {
        match spec_key_code(event.key) {
            Some(code) => Some(spec_csi_u(code, p, spec_kitty_text(event, flags, all))),
            None => None,
        }
    }
}

/// The bytes a program is given for a key event: the kitty protocol's escape code where the
/// program asked for one, the legacy bytes otherwise.
pub open spec fn spec_encode_key(event: KeyEvent, modes: Modes) -> Option<Seq<u8>> {
    match spec_kitty_key(event, modes) {
        Some(b) => Some(b),
        None => spec_legacy_key(event, modes),
    }
}

/// The event type sub-field's value, or `None` for a press.
fn event_type(kind: KeyKind, typed: bool) -> (r: Option<u8>)
    ensures
        r == spec_event_type(kind, typed),
{
    if !typed {
        return None;
    }
    match kind {
        KeyKind::Press => None,
        KeyKind::Repeat => Some(2),
        KeyKind::Release => Some(3),
    }
}

/// The text a key composed is read for one thing only: the kitty protocol's associated-text
/// field, given when a program asked both for every key and for the text. Otherwise two
/// events that differ only in their text are given the same bytes.
pub proof fn lemma_composed_text_is_read_only_when_asked(event: KeyEvent, text: Option<String>, modes: Modes)
    requires
        !(modes.keyboard.all_keys && modes.keyboard.associated_text),
    ensures
        spec_encode_key((KeyEvent { key: event.key, mods: event.mods, text: text, kind: event.kind }), modes)
            == spec_encode_key(event, modes),
{
    let other = KeyEvent { key: event.key, mods: event.mods, text: text, kind: event.kind };
    assert(spec_kitty_text(other, modes.keyboard, modes.keyboard.all_keys) == spec_kitty_text(
        event,
        modes.keyboard,
        modes.keyboard.all_keys,
    ));
}

/// Whether the protocol reports a key in a sequence rather than giving it a code point.
fn sequence_form(key: Key) -> (r: bool)
    ensures
        r == spec_sequence_form(key),
{
    match key {
        Key::Up | Key::Down | Key::Right | Key::Left | Key::Home | Key::End | Key::Insert
        | Key::Delete | Key::PageUp | Key::PageDown => true,
        Key::F(n) => 1 <= n && n <= 12,
        _ => false,
    }
}

/// Whether the legacy encoding has bytes of its own for a key the protocol numbers.
fn has_legacy_bytes(key: Key) -> (r: bool)
    ensures
        r == spec_has_legacy_bytes(key),
{
    match key {
        Key::Escape | Key::Enter | Key::Tab | Key::Backspace => true,
        _ => character_of(key).is_some(),
    }
}

/// Whether the protocol says a key must be reported as an escape code rather than as the
/// bytes it would produce on its own.
fn ambiguous(event: &KeyEvent) -> (r: bool)
    ensures
        r == spec_ambiguous(*event),
{
    match event.key {
        Key::Enter | Key::Tab | Key::Backspace => false,
        Key::Escape => true,
        _ => event.mods.alt || event.mods.ctrl,
    }
}

/// The code point the protocol names a key by, or `None` for a key it has no number for.
fn key_code(key: Key) -> (r: Option<u32>)
    ensures
        r == spec_key_code(key),
{
    match key {
        Key::Escape => Some(27),
        Key::Enter => Some(13),
        Key::Tab => Some(9),
        Key::Backspace => Some(127),
        Key::F(n) => if 13 <= n && n <= 35 {
            Some(57376 + ((n as u32) - 13))
        } else {
            None
        },
        Key::CapsLock => Some(57358),
        Key::ScrollLock => Some(57359),
        Key::NumLock => Some(57360),
        Key::PrintScreen => Some(57361),
        Key::Pause => Some(57362),
        Key::Menu => Some(57363),
        _ => match character_of(key) {
            Some(c) => Some(unshifted(c) as u32),
            None => None,
        },
    }
}

/// The code points of the text a key produced, when the program asked for them.
fn kitty_text(event: &KeyEvent, flags: KeyboardFlags, all: bool) -> (r: Option<Vec<u32>>)
    ensures
        seen_points(r) == spec_kitty_text(*event, flags, all),
{
    if !all || !flags.associated_text {
        return None;
    }
    match &event.text {
        None => None,
        Some(text) => {
            let chars = chars_of(text.as_str());
            if chars.len() == 0 {
                return None;
            }
            let mut points: Vec<u32> = Vec::new();
            let mut i: usize = 0;
            while i < chars.len()
                invariant
                    i <= chars.len(),
                    points@ == code_points(chars@.take(i as int)),
                decreases chars.len() - i,
            {
                points.push(chars[i] as u32);
                assert(code_points(chars@.take(i as int + 1)) =~= code_points(
                    chars@.take(i as int),
                ).push(chars@[i as int] as u32));
                i += 1;
            }
            assert(chars@.take(chars.len() as int) =~= chars@);
            Some(points)
        },
    }
}

/// An optional list of code points, seen as its contents.
pub open spec fn seen_points(r: Option<Vec<u32>>) -> Option<Seq<u32>> {
    match r {
        Some(v) => Some(v@),
        None => None,
    }
}

/// `CSI <code> ; <mods> ; <text> u`, with each field left out when it has nothing to say.
fn csi_u(code: u32, p: Params, text: Option<Vec<u32>>) -> (r: Vec<u8>)
    ensures
        r@ == spec_csi_u(code, p, seen_points(text)),
{
    let ghost spec_text = seen_points(text);
    let mut out: Vec<u8> = Vec::new();
    out.push(ESC);
    out.push(0x5b);
    push_decimal(&mut out, code as u64);
    let ghost head = out@;
    if text.is_some() && p.is_default() {
        out.push(0x3b);
        out.push(0x31);
    } else if !p.is_default() {
        out.push(0x3b);
        push_decimal(&mut out, p.m as u64);
        match p.event {
            Some(e) => {
                out.push(0x3a);
                push_decimal(&mut out, e as u64);
            },
            None => {},
        }
    }
    let ghost middle = out@;
    assert(middle =~= head + (if spec_text is Some && p.spec_is_default() {
        seq![0x3bu8, 0x31u8]
    } else if !p.spec_is_default() {
        seq![0x3bu8] + param_text(p)
    } else {
        Seq::<u8>::empty()
    }));
    match text {
        Some(points) => {
            out.push(0x3b);
            let ghost start = out@;
            let mut i: usize = 0;
            while i < points.len()
                invariant
                    i <= points.len(),
                    out@ == start + points_text(points@.take(i as int)),
                decreases points.len() - i,
            {
                if i > 0 {
                    out.push(0x3a);
                }
                push_decimal(&mut out, points[i] as u64);
                proof {
                    let next = points@.take(i as int + 1);
                    assert(next.drop_last() =~= points@.take(i as int));
                    if i == 0 {
                        assert(points_text(next) == decimal_bytes(points@[0] as nat));
                    }
                }
                assert(out@ =~= start + points_text(points@.take(i as int + 1)));
                i += 1;
            }
            assert(points@.take(points.len() as int) =~= points@);
        },
        None => {},
    }
    out.push(0x75);
    assert(out@ =~= spec_csi_u(code, p, spec_text));
    out
}

/// The sequence for a key that carries its modifiers as a parameter, with the event type
/// written into it. The parameter is always present, because the event type is a sub-field
/// of it.
fn parameterised_form(event: &KeyEvent, p: Params) -> (r: Vec<u8>)
    requires
        spec_sequence_form(event.key),
    ensures
        r@ == spec_parameterised(form_of(event.key).0, p, form_of(event.key).1),
{
    let (lead, final_byte): (u16, u8) = match event.key {
        Key::Up => (1, 0x41),
        Key::Down => (1, 0x42),
        Key::Right => (1, 0x43),
        Key::Left => (1, 0x44),
        Key::Home => (1, 0x48),
        Key::End => (1, 0x46),
        Key::Insert => (2, 0x7e),
        Key::Delete => (3, 0x7e),
        Key::PageUp => (5, 0x7e),
        Key::PageDown => (6, 0x7e),
        Key::F(n) => if n <= 4 {
            (1, ss3_byte(n))
        } else {
            (
                match function_tilde(n) {
                    Some(t) => t,
                    None => 1,
                },
                0x7e,
            )
        },
        _ => (1, 0x7e),
    };
    parameterised(lead, p, final_byte)
}

/// The escape code a key event has under the kitty keyboard protocol, or `None` when the
/// protocol leaves the key to the legacy encoding.
fn kitty_key(event: &KeyEvent, modes: &Modes) -> (r: Option<Vec<u8>>)
    ensures
        seen(r) == spec_kitty_key(*event, *modes),
{
    let flags = modes.keyboard;
    if flags.is_empty() {
        return None;
    }
    let typed = flags.event_types;
    if event.kind == KeyKind::Release && !typed {
        return None;
    }
    let p = Params { m: modifier_param(event.mods), event: event_type(event.kind, typed) };
    if sequence_form(event.key) {
        return match p.event {
            Some(_) => Some(parameterised_form(event, p)),
            None => None,
        };
    }
    let all = flags.all_keys;
    let code = key_code(event.key);
    let numbered = code.is_some() && !has_legacy_bytes(event.key);
    let escaped = all || numbered || (flags.disambiguate && ambiguous(event));
    if !escaped && p.event.is_none() {
        return None;
    }
    match code {
        Some(c) => Some(csi_u(c, p, kitty_text(event, flags, all))),
        None => None,
    }
}

/// The bytes a program should be given for a key event, or `None` for none at all.
///
/// `None` is a real answer and not a failure: it means "write nothing to the pty", which is
/// what a release produces outside the kitty protocol, and what the keys that exist only to
/// be named (the locks, Print Screen, Pause, Menu) produce in the legacy encoding.
pub fn encode_key(event: &KeyEvent, modes: &Modes) -> (r: Option<Vec<u8>>)
    ensures
        seen(r) == spec_encode_key(*event, *modes),
{
    match kitty_key(event, modes) {
        Some(bytes) => Some(bytes),
        None => legacy_key(event, modes),
    }
}

// ---- the mouse -------------------------------------------------------------------------

/// Whether the mode wants an event reported at all. The modes are cumulative: `X10` reports
/// presses, `Button` releases too, `Drag` motion while a button is held, and `Motion`
/// everything.
pub open spec fn spec_reportable(event: MouseEvent, mode: MouseMode) -> bool {
    match mode {
        MouseMode::Off => false,
        MouseMode::X10 => event.action == MouseAction::Press,
        MouseMode::Button => event.action != MouseAction::Motion,
        MouseMode::Drag => match event.action {
            MouseAction::Motion => event.button != MouseButton::NoButton,
            _ => true,
        },
        MouseMode::Motion => true,
    }
}

/// A button's number on the wire.
pub open spec fn button_number(button: MouseButton) -> nat {
    match button {
        MouseButton::Left => 0,
        MouseButton::Middle => 1,
        MouseButton::Right => 2,
        MouseButton::NoButton => 3,
        MouseButton::WheelUp => 64,
        MouseButton::WheelDown => 65,
        MouseButton::WheelLeft => 66,
        MouseButton::WheelRight => 67,
        MouseButton::Back => 128,
        MouseButton::Forward => 129,
    }
}

/// The modifiers' weights in a mouse report: Shift 4, Alt 8, Control 16.
pub open spec fn modifier_weight(mods: Modifiers) -> nat {
    (if mods.shift { 4nat } else { 0nat }) + (if mods.alt { 8nat } else { 0nat }) + (if mods.ctrl {
        16nat
    } else {
        0nat
    })
}

/// xterm's `Cb`: the button, plus 32 while the pointer moves, or 3 for a release, plus the
/// modifiers.
pub open spec fn report_value(event: MouseEvent) -> nat {
    (match event.action {
        MouseAction::Motion => button_number(event.button) + 32,
        MouseAction::Release => 3,
        MouseAction::Press => button_number(event.button),
    }) + modifier_weight(event.mods)
}

/// The SGR form's value, which keeps the button on a release.
pub open spec fn sgr_value(event: MouseEvent) -> nat {
    if event.action == MouseAction::Release {
        button_number(event.button) + modifier_weight(event.mods)
    } else {
        report_value(event)
    }
}

/// A value clamped into the one byte the X10 form has for it.
pub open spec fn clamp_byte(value: nat) -> u8 {
    if value < 255 { value as u8 } else { 255 }
}

/// A value below 0x800 as the UTF-8 character it is the code point of: one byte below 0x80,
/// two from there.
pub open spec fn wide(value: nat) -> Seq<u8> {
    if value < 0x80 {
        seq![value as u8]
    } else {
        seq![(0xc0 + value / 64) as u8, (0x80 + value % 64) as u8]
    }
}

/// One coordinate in the UTF-8 form: the coordinate plus 32, clamped at 2047, the last
/// value with a two-byte spelling.
pub open spec fn position(coordinate: nat) -> Seq<u8> {
    wide(if coordinate + 32 <= 2047 { coordinate + 32 } else { 2047 })
}

/// The SGR form: `CSI < <value> ; <col> ; <row>` and `M`, or `m` for a release.
pub open spec fn sgr_bytes(value: nat, col: nat, row: nat, release: bool) -> Seq<u8> {
    seq![ESC, 0x5b, 0x3c] + decimal_bytes(value) + seq![0x3b] + decimal_bytes(col) + seq![0x3b]
        + decimal_bytes(row) + seq![if release { 0x6d } else { 0x4d }]
}

/// The urxvt form: the X10 value and the coordinates in decimal, `CSI <v> ; <col> ; <row> M`.
pub open spec fn urxvt_bytes(value: nat, col: nat, row: nat) -> Seq<u8> {
    seq![ESC, 0x5b] + decimal_bytes(value) + seq![0x3b] + decimal_bytes(col) + seq![0x3b]
        + decimal_bytes(row) + seq![0x4d]
}

/// The X10 form: `CSI M`, the value as a character, and each coordinate plus 32 in one byte.
pub open spec fn x10_bytes(value: nat, col: nat, row: nat) -> Seq<u8> {
    seq![ESC, 0x5b, 0x4d] + wide(value) + seq![clamp_byte(32 + col), clamp_byte(32 + row)]
}

/// The UTF-8 form: `CSI M` and three characters.
pub open spec fn utf8_bytes(value: nat, col: nat, row: nat) -> Seq<u8> {
    seq![ESC, 0x5b, 0x4d] + wide(value) + position(col) + position(row)
}

/// The bytes of a mouse report, or `None` when the mode does not report the event. The
/// coordinates on the wire are one-based.
pub open spec fn spec_encode_mouse(event: MouseEvent, modes: Modes) -> Option<Seq<u8>> {
    let col = event.col + 1;
    let row = event.row + 1;
    let value = 32 + report_value(event);
    if !spec_reportable(event, modes.mouse) {
        None
    } else {
        Some(
            match modes.mouse_encoding {
                MouseEncoding::Sgr => sgr_bytes(
                    sgr_value(event),
                    col as nat,
                    row as nat,
                    event.action == MouseAction::Release,
                ),
                MouseEncoding::Urxvt => urxvt_bytes(value, col as nat, row as nat),
                MouseEncoding::X10 => x10_bytes(value, col as nat, row as nat),
                MouseEncoding::Utf8 => utf8_bytes(value, col as nat, row as nat),
            },
        )
    }
}

/// Whether the mode wants this event reported at all.
fn reportable(event: MouseEvent, mode: MouseMode) -> (r: bool)
    ensures
        r == spec_reportable(event, mode),
{
    match mode {
        MouseMode::Off => false,
        MouseMode::X10 => event.action == MouseAction::Press,
        MouseMode::Button => event.action != MouseAction::Motion,
        MouseMode::Drag => match event.action {
            MouseAction::Motion => event.button != MouseButton::NoButton,
            _ => true,
        },
        MouseMode::Motion => true,
    }
}

/// The button's code on the wire.
fn button_code(button: MouseButton) -> (r: u16)
    ensures
        r == button_number(button),
{
    match button {
        MouseButton::Left => 0,
        MouseButton::Middle => 1,
        MouseButton::Right => 2,
        MouseButton::NoButton => 3,
        MouseButton::WheelUp => 64,
        MouseButton::WheelDown => 65,
        MouseButton::WheelLeft => 66,
        MouseButton::WheelRight => 67,
        MouseButton::Back => 128,
        MouseButton::Forward => 129,
    }
}

/// The modifiers, added into a mouse report. There is no `1 +` bias here, which is why this
/// is not the key encoding's parameter.
fn modifier_bits(mods: Modifiers) -> (r: u16)
    ensures
        r == modifier_weight(mods),
{
    let mut bits: u16 = 0;
    if mods.shift {
        bits += 4;
    }
    if mods.alt {
        bits += 8;
    }
    if mods.ctrl {
        bits += 16;
    }
    bits
}

/// Squeeze a value into one byte: clamping, not wrapping, so a click past the last
/// representable column lands on the border rather than somewhere the user did not click.
fn one_byte(value: u32) -> (r: u8)
    ensures
        r == clamp_byte(value as nat),
{
    if value < 255 {
        value as u8
    } else {
        255
    }
}

/// One value of the UTF-8 form, as the bytes of the character it is the code point of.
fn push_wide(out: &mut Vec<u8>, value: u32)
    requires
        value < 0x800,
    ensures
        final(out)@ == old(out)@ + wide(value as nat),
{
    if value < 0x80 {
        out.push(value as u8);
    } else {
        out.push((0xc0 + value / 64) as u8);
        out.push((0x80 + value % 64) as u8);
    }
    assert(out@ =~= old(out)@ + wide(value as nat));
}

/// One coordinate in the UTF-8 form, clamped at 2047 where the two-byte form runs out.
fn push_position(out: &mut Vec<u8>, coordinate: u32)
    requires
        coordinate <= 0x10000,
    ensures
        final(out)@ == old(out)@ + position(coordinate as nat),
{
    let v = coordinate + 32;
    push_wide(out, if v <= 2047 { v } else { 2047 });
}

/// The SGR form of a report.
fn sgr_report(value: u16, col: u32, row: u32, release: bool) -> (r: Vec<u8>)
    ensures
        r@ == sgr_bytes(value as nat, col as nat, row as nat, release),
{
    let mut out: Vec<u8> = Vec::new();
    out.push(ESC);
    out.push(0x5b);
    out.push(0x3c);
    push_decimal(&mut out, value as u64);
    out.push(0x3b);
    push_decimal(&mut out, col as u64);
    out.push(0x3b);
    push_decimal(&mut out, row as u64);
    out.push(if release { 0x6d } else { 0x4d });
    assert(out@ =~= sgr_bytes(value as nat, col as nat, row as nat, release));
    out
}

/// The urxvt form of a report.
fn urxvt_report(value: u16, col: u32, row: u32) -> (r: Vec<u8>)
    ensures
        r@ == urxvt_bytes(value as nat, col as nat, row as nat),
{
    let mut out: Vec<u8> = Vec::new();
    out.push(ESC);
    out.push(0x5b);
    push_decimal(&mut out, value as u64);
    out.push(0x3b);
    push_decimal(&mut out, col as u64);
    out.push(0x3b);
    push_decimal(&mut out, row as u64);
    out.push(0x4d);
    assert(out@ =~= urxvt_bytes(value as nat, col as nat, row as nat));
    out
}

/// The X10 form of a report.
fn x10_report(value: u16, col: u32, row: u32) -> (r: Vec<u8>)
    requires
        value < 0x800,
        col <= 0x10000,
        row <= 0x10000,
    ensures
        r@ == x10_bytes(value as nat, col as nat, row as nat),
{
    let mut out: Vec<u8> = Vec::new();
    out.push(ESC);
    out.push(0x5b);
    out.push(0x4d);
    push_wide(&mut out, value as u32);
    out.push(one_byte(32 + col));
    out.push(one_byte(32 + row));
    assert(out@ =~= x10_bytes(value as nat, col as nat, row as nat));
    out
}

/// The UTF-8 form of a report.
fn utf8_report(value: u16, col: u32, row: u32) -> (r: Vec<u8>)
    requires
        value < 0x800,
        col <= 0x10000,
        row <= 0x10000,
    ensures
        r@ == utf8_bytes(value as nat, col as nat, row as nat),
{
    let mut out: Vec<u8> = Vec::new();
    out.push(ESC);
    out.push(0x5b);
    out.push(0x4d);
    push_wide(&mut out, value as u32);
    push_position(&mut out, col);
    push_position(&mut out, row);
    assert(out@ =~= utf8_bytes(value as nat, col as nat, row as nat));
    out
}

/// The bytes a program should be given for a mouse event, or `None` when the mode it set
/// does not report it.
pub fn encode_mouse(event: MouseEvent, modes: &Modes) -> (r: Option<Vec<u8>>)
    ensures
        seen(r) == spec_encode_mouse(event, *modes),
        r is Some <==> spec_reportable(event, modes.mouse),
{
    if !reportable(event, modes.mouse) {
        return None;
    }
    let body: u16 = match event.action {
        MouseAction::Motion => button_code(event.button) + 32,
        MouseAction::Release => 3,
        MouseAction::Press => button_code(event.button),
    };
    let x10: u16 = body + modifier_bits(event.mods);
    let sgr: u16 = if event.action == MouseAction::Release {
        button_code(event.button) + modifier_bits(event.mods)
    } else {
        x10
    };
    let col: u32 = (event.col as u32) + 1;
    let row: u32 = (event.row as u32) + 1;
    let release = event.action == MouseAction::Release;
    Some(
        match modes.mouse_encoding {
            MouseEncoding::Sgr => sgr_report(sgr, col, row, release),
            MouseEncoding::Urxvt => urxvt_report(32 + x10, col, row),
            MouseEncoding::X10 => x10_report(32 + x10, col, row),
            MouseEncoding::Utf8 => utf8_report(32 + x10, col, row),
        },
    )
}

// ---- paste and focus -------------------------------------------------------------------

/// The marker that opens a bracketed paste, `ESC [ 200 ~`.
pub open spec fn paste_open() -> Seq<u8> {
    seq![ESC, 0x5b, 0x32, 0x30, 0x30, 0x7e]
}

/// The marker that closes a bracketed paste, `ESC [ 201 ~`.
pub open spec fn paste_close() -> Seq<u8> {
    seq![ESC, 0x5b, 0x32, 0x30, 0x31, 0x7e]
}

/// The closing marker as text.
pub open spec fn terminator() -> Seq<char> {
    seq!['\x1b', '[', '2', '0', '1', '~']
}

/// Whether the closing marker starts at position `i` of `s`.
pub open spec fn terminator_at(s: Seq<char>, i: int) -> bool {
    0 <= i && i + 6 <= s.len() && s.subrange(i, i + 6) == terminator()
}

/// `s` with every occurrence of the closing marker removed, found from the left as
/// `str::split` finds them.
pub open spec fn strip_terminator(s: Seq<char>) -> Seq<char>
    decreases s.len(),
{
    if s.len() == 0 {
        s
    } else if terminator_at(s, 0) {
        strip_terminator(s.skip(6))
    } else {
        seq![s[0]] + strip_terminator(s.skip(1))
    }
}

/// `s` with the closing marker stripped again and again until none is left: removing one
/// can join the text around it into another, and that one has to go too.
pub open spec fn scrubbed(s: Seq<char>) -> Seq<char>
    decreases s.len(),
{
    let t = strip_terminator(s);
    if t.len() < s.len() {
        scrubbed(t)
    } else {
        s
    }
}

/// Whether the closing marker's bytes start at position `i` of `b`.
pub open spec fn close_at(b: Seq<u8>, i: int) -> bool {
    0 <= i && i + 6 <= b.len() && b.subrange(i, i + 6) == paste_close()
}

/// What a paste sends: the text with every closing marker scrubbed from it, between the two
/// markers when bracketed paste is on.
pub open spec fn spec_encode_paste(text: Seq<char>, modes: Modes) -> Seq<u8> {
    (if modes.bracketed_paste { paste_open() } else { Seq::empty() }) + utf8_seq(scrubbed(text))
        + (if modes.bracketed_paste { paste_close() } else { Seq::empty() })
}

/// Whether the closing marker starts at `i`.
fn closes_at(chars: &Vec<char>, i: usize) -> (r: bool)
    requires
        i <= chars.len(),
    ensures
        r == terminator_at(chars@, i as int),
{
    if chars.len() - i < 6 {
        return false;
    }
    let found = chars[i] == '\x1b' && chars[i + 1] == '[' && chars[i + 2] == '2' && chars[i + 3]
        == '0' && chars[i + 4] == '1' && chars[i + 5] == '~';
    proof {
        let w = chars@.subrange(i as int, i as int + 6);
        if found {
            assert(w =~= terminator());
        } else {
            assert(w != terminator()) by {
                if w == terminator() {
                    assert(w[0] == '\x1b' && w[1] == '[' && w[2] == '2');
                    assert(w[3] == '0' && w[4] == '1' && w[5] == '~');
                }
            }
        }
    }
    found
}

/// Append a marker's bytes.
fn push_marker(out: &mut Vec<u8>, last: u8)
    ensures
        final(out)@ == old(out)@ + seq![ESC, 0x5b, 0x32, 0x30, last, 0x7e],
{
    out.push(ESC);
    out.push(0x5b);
    out.push(0x32);
    out.push(0x30);
    out.push(last);
    out.push(0x7e);
    assert(out@ =~= old(out)@ + seq![ESC, 0x5b, 0x32, 0x30, last, 0x7e]);
}

/// The text with one pass of the closing marker stripped from it, found from the left.
fn strip_once(chars: &Vec<char>) -> (r: Vec<char>)
    ensures
        r@ == strip_terminator(chars@),
{
    let mut done: Vec<char> = Vec::new();
    let mut i: usize = 0;
    assert(chars@.skip(0) =~= chars@);
    assert(done@ + strip_terminator(chars@) =~= strip_terminator(chars@));
    while i < chars.len()
        invariant
            i <= chars.len(),
            strip_terminator(chars@) == done@ + strip_terminator(chars@.skip(i as int)),
        decreases chars.len() - i,
    {
        let ghost rest = chars@.skip(i as int);
        if closes_at(chars, i) {
            assert(rest.subrange(0, 6) =~= chars@.subrange(i as int, i as int + 6));
            assert(rest.skip(6) =~= chars@.skip(i as int + 6));
            i += 6;
        } else {
            assert(!terminator_at(rest, 0)) by {
                if rest.len() >= 6 {
                    assert(rest.subrange(0, 6) =~= chars@.subrange(i as int, i as int + 6));
                }
            }
            let ghost before = done@;
            done.push(chars[i]);
            proof {
                assert(rest.skip(1) =~= chars@.skip(i as int + 1));
                assert(before + (seq![rest[0]] + strip_terminator(rest.skip(1))) =~= done@
                    + strip_terminator(chars@.skip(i as int + 1)));
            }
            i += 1;
        }
    }
    assert(chars@.skip(i as int) =~= Seq::<char>::empty());
    assert(done@ + Seq::<char>::empty() =~= done@);
    done
}

/// The bytes a program should be given for pasted text.
///
/// With bracketed paste on, the text is wrapped in the markers so the program can tell a
/// paste from typing. The closing marker is removed from the text in either case, until none
/// is left: a paste containing it would close the bracket early, and what followed would be
/// read as keystrokes. So with bracketed paste on, the closing marker is in what is sent
/// once, at its end, and with it off it is not in what is sent at all.
pub fn encode_paste(text: &str, modes: &Modes) -> (r: Vec<u8>)
    ensures
        r@ == spec_encode_paste(text@, *modes),
        modes.bracketed_paste ==> forall|i: int| #[trigger] close_at(r@, i) <==> i == r@.len() - 6,
        !modes.bracketed_paste ==> forall|i: int| !#[trigger] close_at(r@, i),
{
    let mut current = chars_of(text);
    loop
        invariant
            scrubbed(current@) == scrubbed(text@),
        ensures
            current@ == scrubbed(text@),
        decreases current.len(),
    {
        let next = strip_once(&current);
        proof {
            lemma_strip_shortens(current@);
        }
        if next.len() == current.len() {
            break;
        }
        current = next;
    }
    let mut out: Vec<u8> = Vec::new();
    if modes.bracketed_paste {
        push_marker(&mut out, 0x30);
    }
    crate::spell::push_utf8_all(&mut out, &current);
    if modes.bracketed_paste {
        push_marker(&mut out, 0x31);
    }
    proof {
        lemma_scrubbed_is_clean(text@);
        assert(out@ =~= spec_encode_paste(text@, *modes));
        lemma_close_only_at_end(scrubbed(text@), modes.bracketed_paste, out@);
    }
    out
}

/// What a focus change sends: `CSI I` for gaining focus and `CSI O` for losing it, when
/// the program asked for focus events, and nothing otherwise.
pub open spec fn spec_encode_focus(gained: bool, modes: Modes) -> Option<Seq<u8>> {
    if !modes.focus_events {
        None
    } else {
        Some(seq![ESC, 0x5b, if gained { 0x49 } else { 0x4f }])
    }
}

/// The bytes a program should be given when the window gains or loses focus, or `None`
/// when it did not ask to be told.
pub fn encode_focus(gained: bool, modes: &Modes) -> (r: Option<Vec<u8>>)
    ensures
        seen(r) == spec_encode_focus(gained, *modes),
{
    if !modes.focus_events {
        return None;
    }
    let mut out: Vec<u8> = Vec::new();
    out.push(ESC);
    out.push(0x5b);
    out.push(if gained { 0x49 } else { 0x4f });
    assert(out@ =~= seq![ESC, 0x5bu8, if gained { 0x49u8 } else { 0x4fu8 }]);
    Some(out)
}

// ---- laws ------------------------------------------------------------------------------

/// xterm's modifier parameter runs from 1, nothing held, to 16, all four held.
pub proof fn lemma_modifier_number_range(mods: Modifiers)
    ensures
        1 <= modifier_number(mods) <= 16,
{
}

/// Without the event-types flag a repeat is sent exactly as the press it repeats, so a held
/// key keeps typing.
pub proof fn lemma_repeat_is_press(event: KeyEvent, modes: Modes)
    requires
        event.kind == KeyKind::Repeat,
        !modes.keyboard.event_types,
    ensures
        spec_encode_key(event, modes) == spec_encode_key(
            KeyEvent { kind: KeyKind::Press, ..event },
            modes,
        ),
{
}

/// Without the event-types flag a release sends nothing at all.
pub proof fn lemma_release_needs_event_types(event: KeyEvent, modes: Modes)
    requires
        event.kind == KeyKind::Release,
        !modes.keyboard.event_types,
    ensures
        spec_encode_key(event, modes) is None,
{
}

/// A program that asked for none of the protocol's flags gets the legacy bytes.
pub proof fn lemma_no_flags_is_legacy(event: KeyEvent, modes: Modes)
    requires
        modes.keyboard.spec_is_empty(),
    ensures
        spec_encode_key(event, modes) == spec_legacy_key(event, modes),
{
}

/// A press is the same bytes whether or not the program also asked for event types: the
/// press is the protocol's default and is never spelled out.
pub proof fn lemma_press_ignores_event_types(event: KeyEvent, modes: Modes)
    requires
        event.kind == KeyKind::Press,
        !modes.keyboard.event_types,
        !modes.keyboard.spec_is_empty(),
    ensures
        spec_encode_key(
            event,
            Modes { keyboard: KeyboardFlags { event_types: true, ..modes.keyboard }, ..modes },
        ) == spec_encode_key(event, modes),
{
}

/// The keys the protocol reports in a sequence keep the legacy sequence when pressed, under
/// any flags: only an event type changes them.
pub proof fn lemma_sequence_keys_keep_their_bytes(event: KeyEvent, modes: Modes)
    requires
        event.kind == KeyKind::Press,
        spec_sequence_form(event.key),
    ensures
        spec_encode_key(event, modes) == spec_legacy_key(event, modes),
        spec_encode_key(event, modes) is Some,
{
}

/// The two-byte arithmetic of `wide` is UTF-8.
pub proof fn lemma_wide_is_utf8(value: nat, ch: char)
    requires
        ch as u32 == value,
        value < 0x800,
    ensures
        wide(value) == utf8(ch),
{
    let x: u32 = ch as u32;
    if x >= 0x80 {
        assert((0xc0 | (x >> 6u32)) == 0xc0 + x / 64 && (0x80 | (x & 0x3f)) == 0x80 + x % 64)
            by (bit_vector)
            requires
                0x80 <= x < 0x800,
        ;
        assert(wide(value) =~= utf8(ch));
    }
}

/// Every value of a report in the UTF-8 form is a character: the report is `CSI M` followed
/// by the UTF-8 encodings of the button's and the two coordinates' characters.
#[verifier::spinoff_prover]
#[verifier::rlimit(40)]
pub proof fn lemma_utf8_report_is_text(
    event: MouseEvent,
    modes: Modes,
    button: char,
    col: char,
    row: char,
)
    requires
        modes.mouse_encoding == MouseEncoding::Utf8,
        spec_reportable(event, modes.mouse),
        button as u32 == 32 + report_value(event),
        col as u32 == if event.col + 33 <= 2047 { event.col + 33 } else { 2047 },
        row as u32 == if event.row + 33 <= 2047 { event.row + 33 } else { 2047 },
    ensures
        spec_encode_mouse(event, modes) == Some(
            seq![ESC, 0x5b, 0x4d] + utf8_seq(seq![button, col, row]),
        ),
{
    let v = 32 + report_value(event);
    assert(v < 0x800);
    lemma_wide_is_utf8(v, button);
    lemma_wide_is_utf8(col as u32 as nat, col);
    lemma_wide_is_utf8(row as u32 as nat, row);
    let s1 = seq![button];
    let s2 = seq![button, col];
    let s3 = seq![button, col, row];
    assert(utf8_seq(s1) =~= utf8(button)) by {
        assert(s1.drop_last() =~= Seq::<char>::empty());
        assert(utf8_seq(Seq::<char>::empty()) =~= Seq::<u8>::empty());
        assert(utf8_seq(s1) == utf8_seq(s1.drop_last()) + utf8(s1.last()));
    }
    assert(utf8_seq(s2) == utf8_seq(s1) + utf8(col)) by {
        assert(s2.drop_last() =~= s1);
    }
    assert(utf8_seq(s3) == utf8_seq(s2) + utf8(row)) by {
        assert(s3.drop_last() =~= s2);
    }
    assert(utf8_seq(s3) =~= utf8(button) + utf8(col) + utf8(row));
}

/// Text with no closing marker in it is left as it is.
pub proof fn lemma_strip_without_terminator(s: Seq<char>)
    requires
        forall|i: int| !#[trigger] terminator_at(s, i),
    ensures
        strip_terminator(s) == s,
    decreases s.len(),
{
    if s.len() > 0 {
        let t = s.skip(1);
        assert forall|i: int| !#[trigger] terminator_at(t, i) by {
            if 0 <= i && i + 6 <= t.len() {
                assert(t.subrange(i, i + 6) =~= s.subrange(i + 1, i + 7));
                assert(!terminator_at(s, i + 1));
            }
        }
        lemma_strip_without_terminator(t);
        assert(!terminator_at(s, 0));
        assert(seq![s[0]] + t =~= s);
    }
}

/// With bracketed paste off, text that holds no closing marker is sent as it came.
pub proof fn lemma_plain_paste_is_the_text(text: Seq<char>, modes: Modes)
    requires
        !modes.bracketed_paste,
        forall|i: int| !#[trigger] terminator_at(text, i),
    ensures
        spec_encode_paste(text, modes) == utf8_seq(text),
{
    lemma_scrubbed_keeps_clean(text);
    assert(Seq::<u8>::empty() + utf8_seq(text) + Seq::<u8>::empty() =~= utf8_seq(text));
}

/// One pass never lengthens the text, and a pass that shortens nothing found no marker.
proof fn lemma_strip_shortens(s: Seq<char>)
    ensures
        strip_terminator(s).len() <= s.len(),
        strip_terminator(s).len() == s.len() ==> forall|i: int| !#[trigger] terminator_at(s, i),
    decreases s.len(),
{
    if s.len() > 0 {
        if terminator_at(s, 0) {
            lemma_strip_shortens(s.skip(6));
        } else {
            let t = s.skip(1);
            lemma_strip_shortens(t);
            if strip_terminator(s).len() == s.len() {
                assert forall|i: int| !#[trigger] terminator_at(s, i) by {
                    if i >= 1 && i + 6 <= s.len() {
                        assert(t.subrange(i - 1, i + 5) =~= s.subrange(i, i + 6));
                        assert(!terminator_at(t, i - 1));
                    }
                }
            }
        }
    }
}

/// What scrubbing leaves holds no closing marker.
proof fn lemma_scrubbed_is_clean(s: Seq<char>)
    ensures
        forall|i: int| !#[trigger] terminator_at(scrubbed(s), i),
    decreases s.len(),
{
    lemma_strip_shortens(s);
    let t = strip_terminator(s);
    if t.len() < s.len() {
        lemma_scrubbed_is_clean(t);
        assert(scrubbed(s) == scrubbed(t));
    } else {
        assert(scrubbed(s) == s);
    }
}

/// Text with no closing marker in it is scrubbed to itself.
proof fn lemma_scrubbed_keeps_clean(s: Seq<char>)
    requires
        forall|i: int| !#[trigger] terminator_at(s, i),
    ensures
        scrubbed(s) == s,
{
    lemma_strip_without_terminator(s);
}

/// An ASCII character is one byte, its code; any other character's first and last bytes
/// are at least `0x80`.
proof fn lemma_utf8_bytes(c: char)
    ensures
        utf8(c).len() >= 1,
        (c as u32) < 0x80 ==> utf8(c) == seq![(c as u32) as u8],
        (c as u32) >= 0x80 ==> utf8(c)[0] >= 0x80 && utf8(c).last() >= 0x80,
{
    let v: u32 = c as u32;
    if v >= 0x80 && v < 0x800 {
        assert((0xc0 | (v >> 6u32)) as u8 >= 0x80 && (0x80 | (v & 0x3f)) as u8 >= 0x80) by (bit_vector)
            requires
                0x80 <= v < 0x800,
        ;
    } else if v >= 0x800 && v < 0x10000 {
        assert((0xe0 | (v >> 12u32)) as u8 >= 0x80 && (0x80 | (v & 0x3f)) as u8 >= 0x80) by (bit_vector)
            requires
                0x800 <= v < 0x10000,
        ;
    } else if v >= 0x10000 {
        assert((0xf0 | (v >> 18u32)) as u8 >= 0x80 && (0x80 | (v & 0x3f)) as u8 >= 0x80) by (bit_vector)
            requires
                0x10000 <= v,
        ;
    }
}

/// When a text's UTF-8 ends in `k` ASCII bytes, the text ends in the `k` characters those
/// bytes are the codes of.
proof fn lemma_ascii_tail(s: Seq<char>, k: int)
    requires
        0 <= k <= utf8_seq(s).len(),
        forall|m: int| 0 <= m < k ==> #[trigger] utf8_seq(s)[utf8_seq(s).len() - k + m] < 0x80,
    ensures
        k <= s.len(),
        forall|m: int|
            0 <= m < k ==> (#[trigger] s[s.len() - k + m]) as u32 == utf8_seq(s)[utf8_seq(s).len() - k + m],
    decreases k,
{
    if k > 0 {
        let p = s.drop_last();
        let c = s.last();
        let u = utf8_seq(s);
        assert(s.len() > 0);
        lemma_utf8_bytes(c);
        assert(u == utf8_seq(p) + utf8(c));
        assert(u[u.len() - 1] < 0x80) by {
            assert(u[u.len() - k + (k - 1)] < 0x80);
        }
        assert(utf8(c).last() == u[u.len() - 1]);
        assert((c as u32) < 0x80);
        assert(u =~= utf8_seq(p).push((c as u32) as u8));
        assert forall|m: int| 0 <= m < k - 1 implies #[trigger] utf8_seq(p)[utf8_seq(p).len() - (k - 1) + m] < 0x80 by {
            assert(utf8_seq(p)[utf8_seq(p).len() - (k - 1) + m] == u[u.len() - k + m]);
        }
        lemma_ascii_tail(p, k - 1);
        assert forall|m: int|
            0 <= m < k implies (#[trigger] s[s.len() - k + m]) as u32 == u[u.len() - k + m] by {
            if m < k - 1 {
                assert(s[s.len() - k + m] == p[p.len() - (k - 1) + m]);
                assert(utf8_seq(p)[utf8_seq(p).len() - (k - 1) + m] == u[u.len() - k + m]);
            }
        }
    }
}

/// The UTF-8 of a text with no closing marker in it holds no closing marker either: the
/// marker is ASCII, and an ASCII byte is never part of a longer character.
proof fn lemma_no_close_in_clean_text(t: Seq<char>)
    requires
        forall|i: int| !#[trigger] terminator_at(t, i),
    ensures
        forall|j: int| !#[trigger] close_at(utf8_seq(t), j),
    decreases t.len(),
{
    if t.len() > 0 {
        let p = t.drop_last();
        let c = t.last();
        let up = utf8_seq(p);
        let u = utf8_seq(t);
        assert(u == up + utf8(c));
        assert forall|i: int| !#[trigger] terminator_at(p, i) by {
            if 0 <= i && i + 6 <= p.len() {
                assert(p.subrange(i, i + 6) =~= t.subrange(i, i + 6));
                assert(!terminator_at(t, i));
            }
        }
        lemma_no_close_in_clean_text(p);
        lemma_utf8_bytes(c);
        assert forall|j: int| !#[trigger] close_at(u, j) by {
            if close_at(u, j) {
                let w = u.subrange(j, j + 6);
                assert(w == paste_close());
                if j + 6 <= up.len() {
                    assert(up.subrange(j, j + 6) =~= w);
                    assert(close_at(up, j));
                } else {
                    assert(utf8(c).len() <= 4);
                    assert(j <= up.len());
                    assert(u[up.len() as int] == utf8(c)[0]);
                    assert(u[up.len() as int] == w[up.len() - j]);
                    assert(w[up.len() - j] < 0x80);
                    assert((c as u32) < 0x80);
                    assert(j + 5 == up.len());
                    assert(c as u32 == 0x7e);
                    assert forall|m: int| 0 <= m < 5 implies #[trigger] up[up.len() - 5 + m] < 0x80 by {
                        assert(up[up.len() - 5 + m] == w[m]);
                    }
                    lemma_ascii_tail(p, 5);
                    let k = t.len() - 6;
                    assert forall|m: int| 0 <= m < 5 implies (#[trigger] t[k + m]) as u32 == w[m] by {
                        assert(t[k + m] == p[p.len() - 5 + m]);
                        assert(up[up.len() - 5 + m] == w[m]);
                    }
                    assert forall|m: int| 0 <= m < 6 implies #[trigger] t.subrange(k, k + 6)[m] == terminator()[m] by {
                        let x = t.subrange(k, k + 6)[m];
                        assert(x == t[k + m]);
                        if m < 5 {
                            assert(w[m] == paste_close()[m]);
                            assert(x as u32 == w[m]);
                        } else {
                            assert(x == c);
                        }
                        let v: u32 = x as u32;
                        assert(v == (terminator()[m]) as u32);
                        vstd::utf8::char_u32_cast(x, v);
                        vstd::utf8::char_u32_cast(terminator()[m], v);
                        assert(x == terminator()[m]);
                    }
                    assert(t.subrange(k, k + 6) =~= terminator());
                    assert(terminator_at(t, k));
                }
            }
        }
    }
}

/// With bracketed paste on, the markers around text with no closing marker in it hold the
/// closing marker once, at the end; with it off, the text's bytes hold it nowhere.
proof fn lemma_close_only_at_end(t: Seq<char>, bracketed: bool, b: Seq<u8>)
    requires
        forall|i: int| !#[trigger] terminator_at(t, i),
        b == (if bracketed { paste_open() } else { Seq::empty() }) + utf8_seq(t) + (if bracketed {
            paste_close()
        } else {
            Seq::empty()
        }),
    ensures
        bracketed ==> forall|i: int| #[trigger] close_at(b, i) <==> i == b.len() - 6,
        !bracketed ==> forall|i: int| !#[trigger] close_at(b, i),
{
    lemma_no_close_in_clean_text(t);
    let u = utf8_seq(t);
    if bracketed {
        assert(b == paste_open() + u + paste_close());
        let n: int = u.len() as int;
        assert forall|i: int| #[trigger] close_at(b, i) <==> i == b.len() - 6 by {
            if i == b.len() - 6 {
                assert(b.subrange(i, i + 6) =~= paste_close());
            }
            if close_at(b, i) && i != b.len() - 6 {
                let w = b.subrange(i, i + 6);
                assert(w == paste_close());
                if i == 0 {
                    assert(w[4] == b[4]);
                } else if i < 6 {
                    assert(w[0] == b[i]);
                } else if i + 6 <= 6 + n {
                    assert(u.subrange(i - 6, i) =~= w);
                    assert(close_at(u, i - 6));
                } else {
                    assert(i < 6 + n);
                    assert(w[6 + n - i] == b[6 + n as int]);
                }
            }
        }
    } else {
        assert(b =~= u);
    }
}

/// Text with no closing marker in it is sent as it came, between the markers when bracketed
/// paste is on.
pub proof fn lemma_clean_paste_is_the_text(text: Seq<char>, modes: Modes)
    requires
        forall|i: int| !#[trigger] terminator_at(text, i),
    ensures
        spec_encode_paste(text, modes) == (if modes.bracketed_paste { paste_open() } else { Seq::empty() })
            + utf8_seq(text) + (if modes.bracketed_paste { paste_close() } else { Seq::empty() }),
{
    lemma_scrubbed_keeps_clean(text);
}

/// A modifier parameter in decimal: one digit up to nine, and `1` and a second digit from
/// ten to sixteen.
pub open spec fn modifier_digits(m: nat) -> Seq<u8> {
    if m < 10 {
        seq![(0x30 + m) as u8]
    } else {
        seq![0x31u8, (0x30 + m - 10) as u8]
    }
}

/// The final byte xterm gives each cursor key: `A` up, `B` down, `C` right, `D` left, `H`
/// Home, `F` End.
pub open spec fn cursor_final(key: Key) -> u8 {
    match key {
        Key::Up => 0x41u8,
        Key::Down => 0x42u8,
        Key::Right => 0x43u8,
        Key::Left => 0x44u8,
        Key::Home => 0x48u8,
        _ => 0x46u8,
    }
}

/// Whether a key is one of the cursor keys: an arrow, Home or End.
pub open spec fn is_cursor_key(key: Key) -> bool {
    key is Up || key is Down || key is Right || key is Left || key is Home || key is End
}

/// The number of the tilde keys: 2 Insert, 3 Delete, 5 Page Up, 6 Page Down.
pub open spec fn tilde_digit(key: Key) -> u8 {
    match key {
        Key::Insert => 0x32u8,
        Key::Delete => 0x33u8,
        Key::PageUp => 0x35u8,
        _ => 0x36u8,
    }
}

/// Whether a key is one of Insert, Delete, Page Up and Page Down.
pub open spec fn is_tilde_key(key: Key) -> bool {
    key is Insert || key is Delete || key is PageUp || key is PageDown
}

/// The decimal form of a modifier parameter is its digits.
proof fn lemma_modifier_digits(m: nat)
    requires
        1 <= m <= 16,
    ensures
        decimal_bytes(m) == modifier_digits(m),
        decimal_bytes(1) == seq![0x31u8],
{
    if m >= 10 {
        assert(decimal_bytes(m / 10) == seq![0x31u8]);
        assert(decimal_bytes(m) =~= modifier_digits(m));
    }
}

/// Outside the kitty protocol, a cursor key is xterm's: with no modifier, `ESC [` (or
/// `ESC O` in application cursor mode) and the key's final byte; with modifiers, `ESC [ 1 ;`,
/// the modifier parameter, and the same final byte, whatever the cursor mode. Insert,
/// Delete, Page Up and Page Down are `ESC [` and their number, then `;` and the parameter
/// when a modifier is held, then `~`.
pub proof fn lemma_legacy_cursor_and_tilde_keys(event: KeyEvent, modes: Modes)
    requires
        modes.keyboard.spec_is_empty(),
        event.kind != KeyKind::Release,
    ensures
        is_cursor_key(event.key) && modifier_number(event.mods) == 1 ==> spec_encode_key(event, modes)
            == Some(seq![0x1bu8, if modes.app_cursor_keys { 0x4fu8 } else { 0x5bu8 }, cursor_final(event.key)]),
        is_cursor_key(event.key) && modifier_number(event.mods) > 1 ==> spec_encode_key(event, modes)
            == Some(seq![0x1bu8, 0x5bu8, 0x31u8, 0x3bu8] + modifier_digits(modifier_number(event.mods))
            + seq![cursor_final(event.key)]),
        is_tilde_key(event.key) && modifier_number(event.mods) == 1 ==> spec_encode_key(event, modes)
            == Some(seq![0x1bu8, 0x5bu8, tilde_digit(event.key), 0x7eu8]),
        is_tilde_key(event.key) && modifier_number(event.mods) > 1 ==> spec_encode_key(event, modes)
            == Some(seq![0x1bu8, 0x5bu8, tilde_digit(event.key), 0x3bu8] + modifier_digits(
            modifier_number(event.mods),
        ) + seq![0x7eu8]),
{
    let m = modifier_number(event.mods);
    assert(1 <= m <= 16);
    lemma_modifier_digits(m);
    let p = Params { m: m as u8, event: None };
    assert(p.m as nat == m);
    assert(spec_kitty_key(event, modes) is None);
    if is_cursor_key(event.key) && m > 1 {
        assert(spec_parameterised(1, p, cursor_final(event.key)) =~= seq![0x1bu8, 0x5bu8, 0x31u8, 0x3bu8]
            + modifier_digits(m) + seq![cursor_final(event.key)]);
    }
    if is_tilde_key(event.key) {
        let n: nat = (tilde_digit(event.key) - 0x30) as nat;
        assert(decimal_bytes(n) == seq![tilde_digit(event.key)]);
        if m > 1 {
            assert(spec_parameterised(n, p, 0x7e) =~= seq![0x1bu8, 0x5bu8, tilde_digit(event.key), 0x3bu8]
                + modifier_digits(m) + seq![0x7eu8]);
        } else {
            assert(seq![0x1bu8, 0x5bu8] + decimal_bytes(n) + seq![0x7eu8] =~= seq![
                0x1bu8,
                0x5bu8,
                tilde_digit(event.key),
                0x7eu8,
            ]);
        }
    }
}

/// The digits xterm gives F5 to F12 in `CSI <n> ~`: 15, 17, 18, 19, 20, 21, 23, 24.
pub open spec fn function_key_digits(n: u8) -> Seq<u8> {
    if n == 5 {
        seq![0x31u8, 0x35u8]
    } else if n == 6 {
        seq![0x31u8, 0x37u8]
    } else if n == 7 {
        seq![0x31u8, 0x38u8]
    } else if n == 8 {
        seq![0x31u8, 0x39u8]
    } else if n == 9 {
        seq![0x32u8, 0x30u8]
    } else if n == 10 {
        seq![0x32u8, 0x31u8]
    } else if n == 11 {
        seq![0x32u8, 0x33u8]
    } else {
        seq![0x32u8, 0x34u8]
    }
}

/// Outside the kitty protocol and with no modifier held: F1 to F4 are `ESC O` and `P`,
/// `Q`, `R`, `S`; F5 to F12 are `ESC [`, their number and `~`; Enter is a carriage return,
/// or a line feed in newline mode; Backspace is DEL; Escape is ESC; and Tab is a tab.
pub proof fn lemma_legacy_plain_keys(event: KeyEvent, modes: Modes)
    requires
        modes.keyboard.spec_is_empty(),
        event.kind != KeyKind::Release,
        !event.mods.shift && !event.mods.alt && !event.mods.ctrl && !event.mods.logo,
    ensures
        (event.key matches Key::F(n) && 1 <= n <= 4) ==> spec_encode_key(event, modes) == Some(
            seq![0x1bu8, 0x4fu8, (0x4f + event.key->F_0) as u8],
        ),
        (event.key matches Key::F(n) && 5 <= n <= 12) ==> spec_encode_key(event, modes) == Some(
            seq![0x1bu8, 0x5bu8] + function_key_digits(event.key->F_0) + seq![0x7eu8],
        ),
        event.key is Enter ==> spec_encode_key(event, modes) == Some(
            seq![if modes.newline { 0x0au8 } else { 0x0du8 }],
        ),
        event.key is Backspace ==> spec_encode_key(event, modes) == Some(seq![0x7fu8]),
        event.key is Escape ==> spec_encode_key(event, modes) == Some(seq![0x1bu8]),
        event.key is Tab ==> spec_encode_key(event, modes) == Some(seq![0x09u8]),
{
    assert(modifier_number(event.mods) == 1);
    assert(spec_kitty_key(event, modes) is None);
    if let Key::F(n) = event.key {
        if 5 <= n <= 12 {
            let t = tilde_number(n)->0;
            assert(decimal_bytes(t) == function_key_digits(n)) by {
                assert(decimal_bytes(t / 10) == seq![(48 + t / 10) as u8]);
            }
            assert(seq![0x1bu8, 0x5bu8] + decimal_bytes(t) + seq![0x7eu8] =~= seq![0x1bu8, 0x5bu8]
                + function_key_digits(n) + seq![0x7eu8]);
        }
    }
}

/// Ctrl and a letter, alone and outside the kitty protocol, is the letter's place in the
/// alphabet: Ctrl+A is 0x01 and Ctrl+Z is 0x1a, in either case.
pub proof fn lemma_ctrl_letters(event: KeyEvent, modes: Modes, c: char)
    requires
        modes.keyboard.spec_is_empty(),
        event.kind != KeyKind::Release,
        event.mods.ctrl && !event.mods.alt && !event.mods.logo,
        event.key == Key::Char(c),
        ('a' <= c <= 'z') || ('A' <= c <= 'Z'),
    ensures
        spec_encode_key(event, modes) == Some(
            seq![(if 'a' <= c <= 'z' { c as u32 - 0x60 } else { c as u32 - 0x40 }) as u8],
        ),
{
    assert(spec_kitty_key(event, modes) is None);
}

/// In the SGR form, a left-button press with nothing held at a cell of the first nine
/// columns and rows is `ESC [ < 0 ; <col> ; <row> M`, one-based, and its release the same
/// with `m`; the X10 form is `ESC [ M`, then 32, then 33 plus the column and 33 plus the row.
/// The column comes before the row in both.
pub proof fn lemma_left_click_reports(event: MouseEvent, modes: Modes)
    requires
        event.button == MouseButton::Left,
        !event.mods.shift && !event.mods.alt && !event.mods.ctrl && !event.mods.logo,
        event.action != MouseAction::Motion,
        modes.mouse == MouseMode::Button || modes.mouse == MouseMode::Drag || modes.mouse == MouseMode::Motion,
    ensures
        modes.mouse_encoding == MouseEncoding::Sgr && event.col < 9 && event.row < 9 ==> spec_encode_mouse(
            event,
            modes,
        ) == Some(
            seq![
                0x1bu8,
                0x5bu8,
                0x3cu8,
                0x30u8,
                0x3bu8,
                (0x31 + event.col) as u8,
                0x3bu8,
                (0x31 + event.row) as u8,
                if event.action == MouseAction::Release { 0x6du8 } else { 0x4du8 },
            ],
        ),
        modes.mouse_encoding == MouseEncoding::X10 && event.action == MouseAction::Press && event.col
            < 200 && event.row < 200 ==> spec_encode_mouse(event, modes) == Some(
            seq![0x1bu8, 0x5bu8, 0x4du8, 0x20u8, (0x21 + event.col) as u8, (0x21 + event.row) as u8],
        ),
{
    assert(modifier_weight(event.mods) == 0);
    if modes.mouse_encoding == MouseEncoding::Sgr && event.col < 9 && event.row < 9 {
        assert(decimal_bytes(0) == seq![0x30u8]);
        assert(decimal_bytes((event.col + 1) as nat) == seq![(0x31 + event.col) as u8]);
        assert(decimal_bytes((event.row + 1) as nat) == seq![(0x31 + event.row) as u8]);
    }
}

} // verus!
