use zet::chord::{Key, Modifiers};
use zet::encode::{encode_focus, encode_key, encode_mouse, encode_paste, ESC};
use zet::key::{KeyEvent, KeyKind};
use zet::modes::{KeyboardFlags, Modes, MouseEncoding, MouseMode};
use zet::mouse::{MouseAction, MouseButton, MouseEvent};
fn press(key: Key, mods: Modifiers) -> KeyEvent {
    KeyEvent {
        key,
        mods,
        text: None,
        kind: KeyKind::Press,
    }
}

fn encode(key: Key, mods: Modifiers) -> Option<Vec<u8>> {
    encode_key(&press(key, mods), &Modes::default())
}

fn bytes(key: Key, mods: Modifiers) -> Vec<u8> {
    encode(key, mods).expect("this key has an encoding")
}

/// The encoding as a string, for the tests whose expected bytes are all ASCII.
fn text(key: Key, mods: Modifiers) -> String {
    String::from_utf8(bytes(key, mods)).expect("this sequence is valid UTF-8")
}

fn modes_with(modify: impl FnOnce(&mut Modes)) -> Modes {
    let mut modes = Modes::default();
    modify(&mut modes);
    modes
}

fn mouse(
    button: MouseButton,
    action: MouseAction,
    col: u16,
    row: u16,
    mods: Modifiers,
) -> MouseEvent {
    MouseEvent {
        button,
        action,
        col,
        row,
        mods,
    }
}

fn mouse_modes(mode: MouseMode, encoding: MouseEncoding) -> Modes {
    Modes {
        mouse: mode,
        mouse_encoding: encoding,
        ..Modes::default()
    }
}

#[test]
fn every_ctrl_letter_is_its_position_in_the_alphabet() {
    for (at, ch) in ('a'..='z').enumerate() {
        let expected = vec![u8::try_from(at).unwrap() + 1];
        assert_eq!(bytes(Key::Char(ch), Modifiers::ctrl()), expected, "Ctrl+{ch}");
        assert_eq!(
            bytes(Key::Char(ch.to_ascii_uppercase()), Modifiers::ctrl()),
            expected,
            "Ctrl+{}",
            ch.to_ascii_uppercase()
        );
    }
}

#[test]
fn ctrl_a_and_ctrl_z_are_the_ends_of_the_range() {
    assert_eq!(bytes(Key::Char('a'), Modifiers::ctrl()), vec![0x01]);
    assert_eq!(bytes(Key::Char('z'), Modifiers::ctrl()), vec![0x1a]);
}

#[test]
fn the_punctuation_control_codes() {
    for (ch, byte) in [
        (' ', 0x00),
        ('@', 0x00),
        ('[', 0x1b),
        ('\\', 0x1c),
        (']', 0x1d),
        ('^', 0x1e),
        ('_', 0x1f),
        ('?', 0x7f),
    ] {
        assert_eq!(
            bytes(Key::Char(ch), Modifiers::ctrl()),
            vec![byte],
            "Ctrl+{ch}"
        );
    }
}

#[test]
fn the_named_punctuation_controls_the_same_way_as_the_characters() {
    assert_eq!(bytes(Key::Space, Modifiers::ctrl()), vec![0x00]);
    assert_eq!(bytes(Key::BracketLeft, Modifiers::ctrl()), vec![0x1b]);
    assert_eq!(bytes(Key::Backslash, Modifiers::ctrl()), vec![0x1c]);
    assert_eq!(bytes(Key::BracketRight, Modifiers::ctrl()), vec![0x1d]);
}

#[test]
fn shift_does_not_change_a_character() {
    // The host already applied the layout, so a shifted `a` arrives as `A`.
    assert_eq!(text(Key::Char('A'), Modifiers::shift()), "A");
    assert_eq!(text(Key::Char('a'), Modifiers::empty()), "a");
}

#[test]
fn alt_is_an_escape_in_front_of_the_character() {
    assert_eq!(text(Key::Char('a'), Modifiers::alt()), "\x1ba");
    assert_eq!(text(Key::Char('1'), Modifiers::alt()), "\x1b1");
    assert_eq!(
        bytes(Key::Char('a'), Modifiers::alt() | Modifiers::ctrl()),
        vec![ESC, 0x01]
    );
}

#[test]
fn alt_prefixes_the_control_keys_too() {
    assert_eq!(bytes(Key::Enter, Modifiers::alt()), vec![ESC, b'\r']);
    assert_eq!(bytes(Key::Backspace, Modifiers::alt()), vec![ESC, 0x7f]);
    assert_eq!(bytes(Key::Tab, Modifiers::alt()), vec![ESC, b'\t']);
}

#[test]
fn a_non_ascii_character_is_utf8() {
    assert_eq!(bytes(Key::Char('é'), Modifiers::empty()), "é".as_bytes());
    assert_eq!(bytes(Key::Char('中'), Modifiers::empty()), "中".as_bytes());
}

#[test]
fn arrows_in_the_normal_cursor_mode() {
    assert_eq!(text(Key::Up, Modifiers::empty()), "\x1b[A");
    assert_eq!(text(Key::Down, Modifiers::empty()), "\x1b[B");
    assert_eq!(text(Key::Right, Modifiers::empty()), "\x1b[C");
    assert_eq!(text(Key::Left, Modifiers::empty()), "\x1b[D");
}

#[test]
fn arrows_in_the_application_cursor_mode() {
    let modes = modes_with(|m| m.app_cursor_keys = true);
    for (key, final_byte) in [
        (Key::Up, b'A'),
        (Key::Down, b'B'),
        (Key::Right, b'C'),
        (Key::Left, b'D'),
    ] {
        assert_eq!(
            encode_key(&press(key, Modifiers::empty()), &modes).unwrap(),
            vec![ESC, b'O', final_byte]
        );
    }
}

#[test]
fn home_and_end_in_both_cursor_modes() {
    assert_eq!(text(Key::Home, Modifiers::empty()), "\x1b[H");
    assert_eq!(text(Key::End, Modifiers::empty()), "\x1b[F");
    let modes = modes_with(|m| m.app_cursor_keys = true);
    assert_eq!(
        encode_key(&press(Key::Home, Modifiers::empty()), &modes).unwrap(),
        b"\x1bOH"
    );
    assert_eq!(
        encode_key(&press(Key::End, Modifiers::empty()), &modes).unwrap(),
        b"\x1bOF"
    );
}

#[test]
fn a_modified_cursor_key_is_csi_even_in_application_mode() {
    let modes = modes_with(|m| m.app_cursor_keys = true);
    assert_eq!(
        encode_key(&press(Key::Up, Modifiers::shift()), &modes).unwrap(),
        b"\x1b[1;2A"
    );
}

#[test]
fn the_editing_keypad() {
    assert_eq!(text(Key::Insert, Modifiers::empty()), "\x1b[2~");
    assert_eq!(text(Key::Delete, Modifiers::empty()), "\x1b[3~");
    assert_eq!(text(Key::PageUp, Modifiers::empty()), "\x1b[5~");
    assert_eq!(text(Key::PageDown, Modifiers::empty()), "\x1b[6~");
}

#[test]
fn every_function_key_xterm_defines() {
    let table = [
        (1, "\x1bOP"),
        (2, "\x1bOQ"),
        (3, "\x1bOR"),
        (4, "\x1bOS"),
        (5, "\x1b[15~"),
        (6, "\x1b[17~"),
        (7, "\x1b[18~"),
        (8, "\x1b[19~"),
        (9, "\x1b[20~"),
        (10, "\x1b[21~"),
        (11, "\x1b[23~"),
        (12, "\x1b[24~"),
        (13, "\x1b[25~"),
        (14, "\x1b[26~"),
        (15, "\x1b[28~"),
        (16, "\x1b[29~"),
        (17, "\x1b[31~"),
        (18, "\x1b[32~"),
        (19, "\x1b[33~"),
        (20, "\x1b[34~"),
    ];
    for (n, expected) in table {
        assert_eq!(text(Key::F(n), Modifiers::empty()), expected, "F{n}");
    }
}

#[test]
fn f21_through_f24_have_no_sequence() {
    // xterm's table stops at F20. Returning `None` is deliberate; see `function`.
    for n in 21..=24 {
        assert_eq!(encode(Key::F(n), Modifiers::empty()), None, "F{n}");
    }
}

#[test]
fn a_modified_function_key_carries_the_parameter() {
    assert_eq!(text(Key::F(1), Modifiers::shift()), "\x1b[1;2P");
    assert_eq!(text(Key::F(4), Modifiers::ctrl()), "\x1b[1;5S");
    assert_eq!(text(Key::F(5), Modifiers::shift()), "\x1b[15;2~");
    assert_eq!(text(Key::F(12), Modifiers::alt()), "\x1b[24;3~");
    assert_eq!(text(Key::F(13), Modifiers::shift()), "\x1b[25;2~");
}

#[test]
fn the_modifier_parameter_arithmetic() {
    for (mods, m) in [
        (Modifiers::empty(), 1),
        (Modifiers::shift(), 2),
        (Modifiers::alt(), 3),
        (Modifiers::shift() | Modifiers::alt(), 4),
        (Modifiers::ctrl(), 5),
        (Modifiers::shift() | Modifiers::ctrl(), 6),
        (Modifiers::alt() | Modifiers::ctrl(), 7),
        (Modifiers::shift() | Modifiers::alt() | Modifiers::ctrl(), 8),
        (Modifiers::logo(), 9),
        (Modifiers::shift() | Modifiers::logo(), 10),
        (Modifiers::logo() | Modifiers::ctrl(), 13),
        (
            Modifiers::shift() | Modifiers::alt() | Modifiers::ctrl() | Modifiers::logo(),
            16,
        ),
    ] {
        let expected = if m == 1 {
            "\x1b[A".to_string()
        } else {
            format!("\x1b[1;{m}A")
        };
        assert_eq!(text(Key::Up, mods), expected, "modifiers {mods:?}");
    }
}

#[test]
fn shift_arrow_carries_its_parameter() {
    // The value this crate chose over the bare `CSI A`; see the module docs.
    assert_eq!(text(Key::Left, Modifiers::shift()), "\x1b[1;2D");
}

#[test]
fn a_modified_editing_key_carries_its_parameter() {
    assert_eq!(text(Key::Home, Modifiers::shift()), "\x1b[1;2H");
    assert_eq!(text(Key::Delete, Modifiers::ctrl()), "\x1b[3;5~");
    assert_eq!(text(Key::PageUp, Modifiers::alt()), "\x1b[5;3~");
}

#[test]
fn shift_tab_is_the_short_form() {
    assert_eq!(text(Key::Tab, Modifiers::shift()), "\x1b[Z");
}

#[test]
fn shift_tab_with_anything_else_carries_the_parameter() {
    assert_eq!(
        text(Key::Tab, Modifiers::shift() | Modifiers::alt()),
        "\x1b[1;4Z"
    );
    assert_eq!(
        text(Key::Tab, Modifiers::shift() | Modifiers::ctrl()),
        "\x1b[1;6Z"
    );
}

#[test]
fn tab_without_shift_is_a_tab() {
    assert_eq!(text(Key::Tab, Modifiers::empty()), "\t");
    assert_eq!(text(Key::Tab, Modifiers::ctrl()), "\t");
}

#[test]
fn enter_is_a_carriage_return() {
    assert_eq!(text(Key::Enter, Modifiers::empty()), "\r");
}

#[test]
fn newline_mode_makes_enter_a_line_feed() {
    let modes = modes_with(|m| m.newline = true);
    assert_eq!(
        encode_key(&press(Key::Enter, Modifiers::empty()), &modes).unwrap(),
        b"\n"
    );
}

#[test]
fn space_with_only_shift_is_a_space() {
    assert_eq!(text(Key::Space, Modifiers::shift()), " ");
    assert_eq!(text(Key::Space, Modifiers::empty()), " ");
}

#[test]
fn backspace_is_delete() {
    assert_eq!(bytes(Key::Backspace, Modifiers::empty()), vec![0x7f]);
}

#[test]
fn escape_alone_is_escape() {
    assert_eq!(bytes(Key::Escape, Modifiers::empty()), vec![ESC]);
}

#[test]
fn a_release_encodes_nothing() {
    let event = KeyEvent {
        key: Key::Char('a'),
        mods: Modifiers::empty(),
        text: None,
        kind: KeyKind::Release,
    };
    assert_eq!(encode_key(&event, &Modes::default()), None);
}

#[test]
fn a_repeat_encodes_exactly_what_its_press_does() {
    // The test the whole held-key behaviour rests on: whatever a key sends when
    // it goes down, it sends again for every repeat. Written as an equality
    // against the press rather than against a byte, so it cannot drift — the
    // keys worth checking are the ones whose encoding is complicated enough to
    // have a special case in it.
    for key in [
        Key::Char('a'),
        Key::Backspace,
        Key::Up,
        Key::Down,
        Key::Delete,
        Key::F(5),
    ] {
        for mods in [Modifiers::empty(), Modifiers::ctrl(), Modifiers::alt()] {
            let press = KeyEvent {
                key,
                mods,
                text: None,
                kind: KeyKind::Press,
            };
            let repeat = KeyEvent {
                kind: KeyKind::Repeat,
                ..press.clone()
            };
            let modes = Modes::default();
            assert_eq!(
                encode_key(&repeat, &modes),
                encode_key(&press, &modes),
                "{key:?} with {mods:?}: holding the key sends something else than \
                 pressing it"
            );
            assert!(
                encode_key(&press, &modes).is_some(),
                "{key:?} with {mods:?} encodes nothing at all, so this case proves \
                 nothing"
            );
        }
    }
}

#[test]
fn the_keys_with_no_sequence_encode_nothing() {
    for key in [
        Key::CapsLock,
        Key::NumLock,
        Key::ScrollLock,
        Key::PrintScreen,
        Key::Pause,
        Key::Menu,
    ] {
        assert_eq!(encode(key, Modifiers::empty()), None, "{key:?}");
    }
}

#[test]
fn an_unmapped_ctrl_combination_still_sends_its_character() {
    assert_eq!(text(Key::Minus, Modifiers::ctrl()), "-");
    assert_eq!(text(Key::Char('-'), Modifiers::ctrl()), "-");
}

#[test]
fn sgr_press_release_and_motion() {
    let modes = mouse_modes(MouseMode::Button, MouseEncoding::Sgr);
    assert_eq!(
        encode_mouse(
            mouse(
                MouseButton::Left,
                MouseAction::Press,
                4,
                6,
                Modifiers::empty()
            ),
            &modes
        )
        .unwrap(),
        b"\x1b[<0;5;7M"
    );
    // SGR keeps the button number on release, which is the whole reason for its
    // own final character.
    assert_eq!(
        encode_mouse(
            mouse(
                MouseButton::Left,
                MouseAction::Release,
                4,
                6,
                Modifiers::empty()
            ),
            &modes
        )
        .unwrap(),
        b"\x1b[<0;5;7m"
    );
    assert_eq!(
        encode_mouse(
            mouse(
                MouseButton::Right,
                MouseAction::Release,
                0,
                0,
                Modifiers::empty()
            ),
            &modes
        )
        .unwrap(),
        b"\x1b[<2;1;1m"
    );
}

#[test]
fn sgr_motion_and_wheels() {
    let modes = mouse_modes(MouseMode::Motion, MouseEncoding::Sgr);
    assert_eq!(
        encode_mouse(
            mouse(
                MouseButton::Left,
                MouseAction::Motion,
                1,
                1,
                Modifiers::empty()
            ),
            &modes
        )
        .unwrap(),
        b"\x1b[<32;2;2M"
    );
    assert_eq!(
        encode_mouse(
            mouse(
                MouseButton::NoButton,
                MouseAction::Motion,
                1,
                1,
                Modifiers::empty()
            ),
            &modes
        )
        .unwrap(),
        b"\x1b[<35;2;2M"
    );
    assert_eq!(
        encode_mouse(
            mouse(
                MouseButton::WheelUp,
                MouseAction::Press,
                1,
                1,
                Modifiers::empty()
            ),
            &modes
        )
        .unwrap(),
        b"\x1b[<64;2;2M"
    );
    assert_eq!(
        encode_mouse(
            mouse(
                MouseButton::WheelDown,
                MouseAction::Press,
                1,
                1,
                Modifiers::empty()
            ),
            &modes
        )
        .unwrap(),
        b"\x1b[<65;2;2M"
    );
    assert_eq!(
        encode_mouse(
            mouse(
                MouseButton::Back,
                MouseAction::Press,
                1,
                1,
                Modifiers::empty()
            ),
            &modes
        )
        .unwrap(),
        b"\x1b[<128;2;2M"
    );
    assert_eq!(
        encode_mouse(
            mouse(
                MouseButton::Forward,
                MouseAction::Press,
                1,
                1,
                Modifiers::empty()
            ),
            &modes
        )
        .unwrap(),
        b"\x1b[<129;2;2M"
    );
}

#[test]
fn sgr_modifier_bits() {
    let modes = mouse_modes(MouseMode::Button, MouseEncoding::Sgr);
    // Shift 4, Alt 8, Control 16, added to the button.
    assert_eq!(
        encode_mouse(
            mouse(
                MouseButton::Left,
                MouseAction::Press,
                0,
                0,
                Modifiers::shift()
            ),
            &modes
        )
        .unwrap(),
        b"\x1b[<4;1;1M"
    );
    assert_eq!(
        encode_mouse(
            mouse(MouseButton::Left, MouseAction::Press, 0, 0, Modifiers::alt()),
            &modes
        )
        .unwrap(),
        b"\x1b[<8;1;1M"
    );
    assert_eq!(
        encode_mouse(
            mouse(
                MouseButton::Middle,
                MouseAction::Press,
                0,
                0,
                Modifiers::ctrl()
            ),
            &modes
        )
        .unwrap(),
        b"\x1b[<17;1;1M"
    );
    assert_eq!(
        encode_mouse(
            mouse(
                MouseButton::Left,
                MouseAction::Press,
                0,
                0,
                Modifiers::shift() | Modifiers::ctrl()
            ),
            &modes
        )
        .unwrap(),
        b"\x1b[<20;1;1M"
    );
}

#[test]
fn the_x10_form_packs_everything_into_bytes() {
    let modes = mouse_modes(MouseMode::Button, MouseEncoding::X10);
    assert_eq!(
        encode_mouse(
            mouse(
                MouseButton::Left,
                MouseAction::Press,
                0,
                0,
                Modifiers::empty()
            ),
            &modes
        )
        .unwrap(),
        b"\x1b[M\x20\x21\x21"
    );
    // 32 + 3 for the release, and no way to say which button it was.
    assert_eq!(
        encode_mouse(
            mouse(
                MouseButton::Left,
                MouseAction::Release,
                0,
                0,
                Modifiers::empty()
            ),
            &modes
        )
        .unwrap(),
        b"\x1b[M\x23\x21\x21"
    );
    // 32 + 0 + 32 for motion with the button still down.
    let dragging = mouse_modes(MouseMode::Drag, MouseEncoding::X10);
    assert_eq!(
        encode_mouse(
            mouse(
                MouseButton::Left,
                MouseAction::Motion,
                2,
                3,
                Modifiers::empty()
            ),
            &dragging
        )
        .unwrap(),
        b"\x1b[M\x40\x23\x24"
    );
}

#[test]
fn the_urxvt_form_is_the_x10_value_in_decimal() {
    let modes = mouse_modes(MouseMode::Button, MouseEncoding::Urxvt);
    assert_eq!(
        encode_mouse(
            mouse(
                MouseButton::Left,
                MouseAction::Press,
                4,
                6,
                Modifiers::empty()
            ),
            &modes
        )
        .unwrap(),
        b"\x1b[32;5;7M"
    );
    assert_eq!(
        encode_mouse(
            mouse(
                MouseButton::Left,
                MouseAction::Release,
                4,
                6,
                Modifiers::empty()
            ),
            &modes
        )
        .unwrap(),
        b"\x1b[35;5;7M"
    );
    assert_eq!(
        encode_mouse(
            mouse(
                MouseButton::Left,
                MouseAction::Press,
                4,
                6,
                Modifiers::shift()
            ),
            &modes
        )
        .unwrap(),
        b"\x1b[36;5;7M"
    );
}

#[test]
fn the_utf8_form_widens_only_what_it_has_to() {
    let modes = mouse_modes(MouseMode::Button, MouseEncoding::Utf8);
    // Below 95 the coordinate is still one byte, so the two forms agree.
    assert_eq!(
        encode_mouse(
            mouse(
                MouseButton::Left,
                MouseAction::Press,
                0,
                0,
                Modifiers::empty()
            ),
            &modes
        )
        .unwrap(),
        b"\x1b[M\x20\x21\x21"
    );
    // At 94 the 1-based position is 95, so 32 + 95 = 127 and it still fits.
    assert_eq!(
        encode_mouse(
            mouse(
                MouseButton::Left,
                MouseAction::Press,
                94,
                0,
                Modifiers::empty()
            ),
            &modes
        )
        .unwrap(),
        b"\x1b[M\x20\x7f\x21"
    );
    // At 95 it becomes the two-byte UTF-8 form: 32 + 96 = 128.
    assert_eq!(
        encode_mouse(
            mouse(
                MouseButton::Left,
                MouseAction::Press,
                95,
                0,
                Modifiers::empty()
            ),
            &modes
        )
        .unwrap(),
        b"\x1b[M\x20\xc2\x80\x21"
    );
}

#[test]
fn the_utf8_form_widens_the_thumb_buttons_too() {
    // Back and forward are buttons 8 and 9, which put the report's first value at
    // 32 + 128 and 32 + 129 — 160 and 161, both past the one-byte range. Sent as
    // raw bytes those are `0xA0` and `0xA1`, which are not UTF-8 at all: a program
    // decoding the stream the way this encoding exists to let it has a malformed
    // sequence and no way to recover the button. Only the coordinates were widened.
    let modes = mouse_modes(MouseMode::Button, MouseEncoding::Utf8);
    assert_eq!(
        encode_mouse(
            mouse(
                MouseButton::Back,
                MouseAction::Press,
                0,
                0,
                Modifiers::empty()
            ),
            &modes
        )
        .unwrap(),
        b"\x1b[M\xc2\xa0\x21\x21"
    );
    assert_eq!(
        encode_mouse(
            mouse(
                MouseButton::Forward,
                MouseAction::Press,
                0,
                0,
                Modifiers::empty()
            ),
            &modes
        )
        .unwrap(),
        b"\x1b[M\xc2\xa1\x21\x21"
    );
}

#[test]
fn every_value_of_a_utf8_report_is_a_character() {
    // The button, the column and the row all come from different arithmetic and
    // only the last two were ever widened, so the assertion is on the whole report
    // rather than on any one of the three.
    let modes = mouse_modes(MouseMode::Motion, MouseEncoding::Utf8);
    for button in [
        MouseButton::Left,
        MouseButton::Right,
        MouseButton::Back,
        MouseButton::Forward,
        MouseButton::WheelUp,
        MouseButton::WheelRight,
    ] {
        for mods in [
            Modifiers::empty(),
            Modifiers::shift() | Modifiers::ctrl() | Modifiers::alt(),
        ] {
            // A column and a row past 95, which is where the widening starts, and a
            // wide terminal's worth of columns on top of that.
            for (col, row) in [(0, 0), (95, 95), (200, 60), (5000, 5000)] {
                let encoded =
                    encode_mouse(mouse(button, MouseAction::Press, col, row, mods), &modes)
                        .expect("a report is written for every button");
                assert!(
                    core::str::from_utf8(&encoded).is_ok(),
                    "{button:?} with {mods:?} at ({col}, {row}) produced \
                     {encoded:02x?}, which is not a UTF-8 string"
                );
            }
        }
    }
}

#[test]
fn coordinates_are_clamped_rather_than_wrapped() {
    let modes = mouse_modes(MouseMode::Button, MouseEncoding::X10);
    let encoded = encode_mouse(
        mouse(
            MouseButton::Left,
            MouseAction::Press,
            900,
            900,
            Modifiers::empty(),
        ),
        &modes,
    )
    .unwrap();
    assert_eq!(encoded.len(), 6);
    assert_eq!(encoded[3], 32, "the button is not a coordinate");
    assert_eq!(&encoded[4..], &[u8::MAX, u8::MAX]);
}

#[test]
fn the_utf8_form_clamps_at_its_own_ceiling() {
    let modes = mouse_modes(MouseMode::Button, MouseEncoding::Utf8);
    let encoded = encode_mouse(
        mouse(
            MouseButton::Left,
            MouseAction::Press,
            60000,
            0,
            Modifiers::empty(),
        ),
        &modes,
    )
    .unwrap();
    // 32 + 2015 = 2047, the top of the two-byte form.
    assert_eq!(encoded[3], 32, "the button is not a coordinate");
    assert_eq!(&encoded[4..6], "\u{7ff}".as_bytes());
}

#[test]
fn the_sgr_form_does_not_clamp_its_coordinates() {
    // Decimal parameters have room, so a wide terminal gets its real column.
    let modes = mouse_modes(MouseMode::Button, MouseEncoding::Sgr);
    assert_eq!(
        encode_mouse(
            mouse(
                MouseButton::Left,
                MouseAction::Press,
                999,
                0,
                Modifiers::empty()
            ),
            &modes
        )
        .unwrap(),
        b"\x1b[<0;1000;1M"
    );
}

#[test]
fn no_mode_reports_nothing_when_the_program_did_not_ask() {
    for action in [
        MouseAction::Press,
        MouseAction::Release,
        MouseAction::Motion,
    ] {
        let event = mouse(MouseButton::Left, action, 1, 1, Modifiers::empty());
        for encoding in [
            MouseEncoding::X10,
            MouseEncoding::Utf8,
            MouseEncoding::Urxvt,
            MouseEncoding::Sgr,
        ] {
            let modes = mouse_modes(MouseMode::Off, encoding);
            assert_eq!(encode_mouse(event, &modes), None, "{action:?} {encoding:?}");
        }
    }
}

#[test]
fn x10_reports_presses_only() {
    let modes = mouse_modes(MouseMode::X10, MouseEncoding::Sgr);
    assert!(
        encode_mouse(
            mouse(
                MouseButton::Left,
                MouseAction::Press,
                1,
                1,
                Modifiers::empty()
            ),
            &modes
        )
        .is_some()
    );
    assert_eq!(
        encode_mouse(
            mouse(
                MouseButton::Left,
                MouseAction::Release,
                1,
                1,
                Modifiers::empty()
            ),
            &modes
        ),
        None
    );
    assert_eq!(
        encode_mouse(
            mouse(
                MouseButton::Left,
                MouseAction::Motion,
                1,
                1,
                Modifiers::empty()
            ),
            &modes
        ),
        None
    );
}

#[test]
fn button_reports_presses_and_releases_but_no_motion() {
    let modes = mouse_modes(MouseMode::Button, MouseEncoding::Sgr);
    assert!(
        encode_mouse(
            mouse(
                MouseButton::Left,
                MouseAction::Release,
                1,
                1,
                Modifiers::empty()
            ),
            &modes
        )
        .is_some()
    );
    assert_eq!(
        encode_mouse(
            mouse(
                MouseButton::Left,
                MouseAction::Motion,
                1,
                1,
                Modifiers::empty()
            ),
            &modes
        ),
        None
    );
}

#[test]
fn drag_reports_motion_only_while_a_button_is_held() {
    let modes = mouse_modes(MouseMode::Drag, MouseEncoding::Sgr);
    assert!(
        encode_mouse(
            mouse(
                MouseButton::Left,
                MouseAction::Motion,
                1,
                1,
                Modifiers::empty()
            ),
            &modes
        )
        .is_some()
    );
    assert_eq!(
        encode_mouse(
            mouse(
                MouseButton::NoButton,
                MouseAction::Motion,
                1,
                1,
                Modifiers::empty()
            ),
            &modes
        ),
        None
    );
}

#[test]
fn motion_reports_a_bare_motion() {
    let modes = mouse_modes(MouseMode::Motion, MouseEncoding::Sgr);
    assert_eq!(
        encode_mouse(
            mouse(
                MouseButton::NoButton,
                MouseAction::Motion,
                0,
                0,
                Modifiers::empty()
            ),
            &modes
        )
        .unwrap(),
        b"\x1b[<35;1;1M"
    );
}

#[test]
fn bracketed_paste_wraps_the_text() {
    let modes = modes_with(|m| m.bracketed_paste = true);
    assert_eq!(encode_paste("hi", &modes), b"\x1b[200~hi\x1b[201~");
}

#[test]
fn plain_paste_is_the_text_alone() {
    assert_eq!(encode_paste("hi", &Modes::default()), b"hi");
}

#[test]
fn a_paste_cannot_close_its_own_bracket() {
    let modes = modes_with(|m| m.bracketed_paste = true);
    assert_eq!(encode_paste("a\x1b[201~b", &modes), b"\x1b[200~ab\x1b[201~");
}

#[test]
fn the_terminator_is_stripped_from_a_plain_paste_too() {
    // Unconditional by design; `encode_paste` says why.
    assert_eq!(encode_paste("a\x1b[201~b", &Modes::default()), b"ab");
}

#[test]
fn every_occurrence_of_the_terminator_goes() {
    let modes = modes_with(|m| m.bracketed_paste = true);
    assert_eq!(
        encode_paste("\x1b[201~\x1b[201~", &modes),
        b"\x1b[200~\x1b[201~"
    );
}

#[test]
fn focus_events_are_reported_only_when_asked_for() {
    let modes = modes_with(|m| m.focus_events = true);
    assert_eq!(encode_focus(true, &modes).unwrap(), b"\x1b[I");
    assert_eq!(encode_focus(false, &modes).unwrap(), b"\x1b[O");
}

#[test]
fn focus_events_are_silent_when_not_asked_for() {
    assert_eq!(encode_focus(true, &Modes::default()), None);
    assert_eq!(encode_focus(false, &Modes::default()), None);
}

// ---- the kitty keyboard protocol -----------------------------------------

/// A terminal a program has asked for `flags`.
fn kitty(flags: KeyboardFlags) -> Modes {
    modes_with(|m| m.keyboard = flags)
}

/// The sequence a key produces under `flags`, or a panic saying it produced none.
fn kitty_bytes(event: &KeyEvent, flags: KeyboardFlags) -> String {
    let bytes = encode_key(event, &kitty(flags)).expect("this key has an encoding");
    String::from_utf8(bytes).expect("this sequence is valid UTF-8")
}

fn with_kind(key: Key, mods: Modifiers, kind: KeyKind) -> KeyEvent {
    KeyEvent {
        kind,
        ..press(key, mods)
    }
}

#[test]
fn a_program_that_has_asked_for_nothing_gets_the_legacy_bytes() {
    // The whole point of the flags being a set of opt-ins: every test in this file
    // above this line is a program that never sent `CSI = u`, and none of them
    // changed. This is the test that says so from the inside.
    for (key, mods) in [
        (Key::Char('a'), Modifiers::empty()),
        (Key::Char('a'), Modifiers::ctrl()),
        (Key::Up, Modifiers::empty()),
        (Key::Escape, Modifiers::empty()),
        (Key::F(5), Modifiers::empty()),
    ] {
        assert_eq!(
            encode(key, mods),
            encode_key(&press(key, mods), &kitty(KeyboardFlags::none())),
            "{key:?} with {mods:?}"
        );
    }
}

#[test]
fn the_protocols_own_examples_come_out_right() {
    // Straight from the specification's table, because a sequence that is merely
    // self-consistent is worth nothing here: the program on the other end has
    // these numbers written down.
    let disambiguate = KeyboardFlags::disambiguate();
    // `shift+a -> CSI 97 ; 2 ; 65 u`, from the section on associated text — which
    // is a flag on top of the all-keys flag, so that is where the example lives.
    // Without the text the same key is `CSI 97;2u`, which the next test checks.
    assert_eq!(
        kitty_bytes(
            &KeyEvent {
                text: Some("A".into()),
                ..press(Key::Char('A'), Modifiers::shift())
            },
            KeyboardFlags::all_keys() | KeyboardFlags::associated_text()
        ),
        "\x1b[97;2;65u"
    );
    // `ctrl+shift+tab should be CSI 9 ; 6 u`, which the specification lists as a
    // correction: fixterms sent `CSI 1 ; 5 Z`, and Tab is one of the three the
    // disambiguate flag exempts — so this is the protocol's answer under the
    // flag that has no exemptions, which the next test is about.
    assert_eq!(
        kitty_bytes(
            &press(Key::Tab, Modifiers::ctrl() | Modifiers::shift()),
            KeyboardFlags::all_keys()
        ),
        "\x1b[9;6u"
    );
    // The table's own rows for the letters, all with Ctrl held so that they are
    // escape codes rather than text.
    assert_eq!(
        kitty_bytes(&press(Key::Char('i'), Modifiers::ctrl()), disambiguate),
        "\x1b[105;5u"
    );
    assert_eq!(
        kitty_bytes(&press(Key::Char('3'), Modifiers::ctrl()), disambiguate),
        "\x1b[51;5u"
    );
    assert_eq!(
        kitty_bytes(&press(Key::Semicolon, Modifiers::ctrl()), disambiguate),
        "\x1b[59;5u"
    );
}

#[test]
fn the_code_is_the_key_before_shift_and_never_after_it() {
    // The protocol is explicit about this and gives a wrong example to make the
    // point: `ctrl+shift+a` is `CSI 97;modifiers u` and "must not be CSI 65;
    // modifiers u". A program matching a shortcut looks for the code of the
    // unshifted key, so a terminal that sends the shifted one hands it a chord it
    // will never match.
    let flags = KeyboardFlags::all_keys();
    assert_eq!(
        kitty_bytes(&press(Key::Char('A'), Modifiers::shift()), flags),
        "\x1b[97;2u"
    );
    assert_eq!(
        kitty_bytes(
            &press(Key::Char('A'), Modifiers::ctrl() | Modifiers::shift()),
            flags
        ),
        "\x1b[97;6u"
    );
    // And the punctuation shift moves, which is the other half of the same fact:
    // Shift+1 arrives as `!` and is still reported as the key `1`.
    assert_eq!(
        kitty_bytes(&press(Key::Char('!'), Modifiers::shift()), flags),
        "\x1b[49;2u"
    );
}

#[test]
fn a_repeat_and_a_release_are_told_apart_from_a_press_only_with_event_types() {
    // Without the flag, a repeat is a press — the bytes are the same, and the
    // program asked for nothing better. With it, the type goes in a sub-field of
    // the modifier parameter, which is why the parameter appears even with
    // nothing held: a sub-field needs a field to be a sub-field of.
    let arrow = press(Key::Up, Modifiers::empty());
    assert_eq!(
        kitty_bytes(
            &with_kind(Key::Up, Modifiers::empty(), KeyKind::Repeat),
            KeyboardFlags::all_keys()
        ),
        "\x1b[A"
    );
    assert_eq!(
        kitty_bytes(
            &with_kind(Key::Up, Modifiers::empty(), KeyKind::Repeat),
            KeyboardFlags::all_keys() | KeyboardFlags::event_types()
        ),
        "\x1b[1;1:2A"
    );
    assert_eq!(
        kitty_bytes(
            &with_kind(Key::Up, Modifiers::empty(), KeyKind::Release),
            KeyboardFlags::all_keys() | KeyboardFlags::event_types()
        ),
        "\x1b[1;1:3A",
        "the release of an unmodified arrow, which legacy has no byte for"
    );
    // A press carries no type at all, which is what makes a sequence from a
    // program that asked for event types identical to one from a program that did
    // not, in the case they share.
    assert_eq!(
        kitty_bytes(&arrow, KeyboardFlags::all_keys() | KeyboardFlags::event_types()),
        "\x1b[A"
    );
    // And an empty event type is not enough: the type lands after the modifiers.
    assert_eq!(
        kitty_bytes(
            &with_kind(Key::Up, Modifiers::ctrl(), KeyKind::Release),
            KeyboardFlags::all_keys() | KeyboardFlags::event_types()
        ),
        "\x1b[1;5:3A"
    );
}

#[test]
fn a_release_is_nothing_at_all_until_a_program_asks_for_event_types() {
    // Not a new rule, the old one seen from the other side: legacy has no byte for
    // a key going up, so without the flag there is nothing to send.
    assert_eq!(
        encode_key(
            &with_kind(Key::Char('a'), Modifiers::empty(), KeyKind::Release),
            &kitty(KeyboardFlags::all_keys())
        ),
        None
    );
    assert_eq!(
        kitty_bytes(
            &with_kind(Key::Char('a'), Modifiers::empty(), KeyKind::Release),
            KeyboardFlags::all_keys() | KeyboardFlags::event_types()
        ),
        "\x1b[97;1:3u"
    );
}

#[test]
fn the_disambiguate_flag_moves_only_the_keys_that_were_ambiguous() {
    // The five the protocol names: Escape, alt+key, ctrl+key, ctrl+alt+key, and
    // shift+alt+key. Shift alone is not among them — `A` cannot be mistaken for
    // the start of anything — so it is still sent as the text it is.
    let flags = KeyboardFlags::disambiguate();
    assert_eq!(
        kitty_bytes(&press(Key::Escape, Modifiers::empty()), flags),
        "\x1b[27u"
    );
    assert_eq!(
        kitty_bytes(&press(Key::Char('a'), Modifiers::ctrl()), flags),
        "\x1b[97;5u"
    );
    assert_eq!(
        kitty_bytes(&press(Key::Char('a'), Modifiers::alt()), flags),
        "\x1b[97;3u"
    );
    assert_eq!(
        kitty_bytes(
            &press(Key::Char('a'), Modifiers::ctrl() | Modifiers::alt()),
            flags
        ),
        "\x1b[97;7u"
    );
    assert_eq!(
        kitty_bytes(
            &press(Key::Char('A'), Modifiers::shift() | Modifiers::alt()),
            flags
        ),
        "\x1b[97;4u"
    );
    // And the ones it leaves alone.
    assert_eq!(
        kitty_bytes(&press(Key::Char('A'), Modifiers::shift()), flags),
        "A",
        "shift on its own still produces text"
    );
    assert_eq!(
        kitty_bytes(&press(Key::Char('a'), Modifiers::empty()), flags),
        "a"
    );
}

#[test]
fn enter_tab_and_backspace_keep_their_bytes_under_disambiguate() {
    // The protocol carves these three out by name, and the reason is the shell: a
    // program that set the flag and crashed without clearing it would otherwise
    // leave a terminal whose Enter key produces no newline, and the user could not
    // type `reset` to get out of it. So ctrl+Enter is still a carriage return.
    let flags = KeyboardFlags::disambiguate();
    for (key, want) in [
        (Key::Enter, "\r"),
        (Key::Tab, "\t"),
        (Key::Backspace, "\u{7f}"),
    ] {
        assert_eq!(
            kitty_bytes(&press(key, Modifiers::ctrl()), flags),
            want,
            "{key:?} with Ctrl"
        );
    }
    // Under the all-keys flag there is no exception: every key is an escape code,
    // and the protocol says so in as many words.
    let all = KeyboardFlags::all_keys();
    assert_eq!(
        kitty_bytes(&press(Key::Enter, Modifiers::empty()), all),
        "\x1b[13u"
    );
    assert_eq!(
        kitty_bytes(&press(Key::Tab, Modifiers::empty()), all),
        "\x1b[9u"
    );
    assert_eq!(
        kitty_bytes(&press(Key::Backspace, Modifiers::empty()), all),
        "\x1b[127u"
    );
}

#[test]
fn the_all_keys_flag_reports_every_key_including_the_ones_that_were_text() {
    let flags = KeyboardFlags::all_keys();
    assert_eq!(
        kitty_bytes(&press(Key::Char('a'), Modifiers::empty()), flags),
        "\x1b[97u"
    );
    assert_eq!(
        kitty_bytes(&press(Key::Char('a'), Modifiers::shift()), flags),
        "\x1b[97;2u"
    );
    assert_eq!(
        kitty_bytes(&press(Key::Space, Modifiers::empty()), flags),
        "\x1b[32u"
    );
    // A lock key is not text and has no character, so the protocol gives it a
    // number in the private use area.
    assert_eq!(
        kitty_bytes(&press(Key::CapsLock, Modifiers::empty()), flags),
        "\x1b[57358u"
    );
    assert_eq!(
        kitty_bytes(&press(Key::PrintScreen, Modifiers::empty()), flags),
        "\x1b[57361u"
    );
}

#[test]
fn the_function_keys_the_legacy_table_stops_at_are_reachable_under_the_protocol() {
    // F21 through F24 have no entry in xterm's table — `function` documents that
    // gap and returns nothing for them — and the protocol is what fills it: its
    // table numbers them from F13's 57376 upward.
    let flags = KeyboardFlags::all_keys();
    assert_eq!(
        kitty_bytes(&press(Key::F(13), Modifiers::empty()), flags),
        "\x1b[57376u"
    );
    assert_eq!(
        kitty_bytes(&press(Key::F(21), Modifiers::empty()), flags),
        "\x1b[57384u"
    );
    assert_eq!(
        kitty_bytes(&press(Key::F(24), Modifiers::empty()), flags),
        "\x1b[57387u"
    );
    // F1 through F12 have a sequence of their own and keep it, because that is the
    // sequence the protocol's table gives them too.
    assert_eq!(
        kitty_bytes(&press(Key::F(1), Modifiers::empty()), flags),
        "\x1bOP"
    );
    assert_eq!(
        kitty_bytes(&press(Key::F(5), Modifiers::empty()), flags),
        "\x1b[15~"
    );
}

#[test]
fn a_function_key_keeps_its_sequence_under_the_protocol_and_only_gains_a_type() {
    // The protocol's table gives the arrow keys `CSI 1 A` and the editing keypad
    // `CSI 2 ~`, which is what they have always been. Nothing about them changes
    // under the protocol, which is why a program that opts in does not stop
    // understanding its own terminfo entry.
    let flags = KeyboardFlags::disambiguate() | KeyboardFlags::all_keys();
    assert_eq!(
        kitty_bytes(&press(Key::Up, Modifiers::empty()), flags),
        "\x1b[A"
    );
    assert_eq!(
        kitty_bytes(&press(Key::Up, Modifiers::ctrl()), flags),
        "\x1b[1;5A"
    );
    assert_eq!(
        kitty_bytes(&press(Key::Insert, Modifiers::empty()), flags),
        "\x1b[2~"
    );
    assert_eq!(
        kitty_bytes(&press(Key::Delete, Modifiers::shift()), flags),
        "\x1b[3;2~"
    );
    assert_eq!(
        kitty_bytes(&press(Key::PageDown, Modifiers::alt()), flags),
        "\x1b[6;3~"
    );
}

#[test]
fn the_associated_text_rides_inside_the_escape_code_and_nowhere_else() {
    // This is the one thing in the crate that reads `KeyEvent::text`, and the
    // reason it is safe is that the text goes *inside* a sequence the program
    // asked for rather than being written to the pty as bytes a shell would take
    // for typing. The protocol's own example is the first one.
    let flags = KeyboardFlags::all_keys() | KeyboardFlags::associated_text();
    let shift_a = KeyEvent {
        text: Some("A".into()),
        ..press(Key::Char('A'), Modifiers::shift())
    };
    assert_eq!(kitty_bytes(&shift_a, flags), "\x1b[97;2;65u");

    // Without the flag, or without the all-keys flag it is defined against, the
    // text is not read at all.
    assert_eq!(kitty_bytes(&shift_a, KeyboardFlags::all_keys()), "\x1b[97;2u");
    assert_eq!(
        kitty_bytes(&shift_a, KeyboardFlags::associated_text()),
        "A",
        "the associated-text flag alone is undefined, so the key stays text"
    );

    // A key with no text gets no field rather than an empty one, and a key with
    // no modifiers gets the modifier field written out so the text has somewhere
    // to sit.
    assert_eq!(
        kitty_bytes(&press(Key::Up, Modifiers::empty()), flags),
        "\x1b[A"
    );
    let plain = KeyEvent {
        text: Some("a".into()),
        ..press(Key::Char('a'), Modifiers::empty())
    };
    assert_eq!(kitty_bytes(&plain, flags), "\x1b[97;1;97u");
}

#[test]
fn a_key_the_protocol_has_no_number_for_is_left_to_the_legacy_encoding() {
    // Nothing here is invented to fill a gap in the table. The protocol numbers
    // F1 through F35 and the keys with characters, and a key outside that is one
    // no program can be told about in this encoding either.
    let flags = KeyboardFlags::all_keys();
    assert_eq!(
        encode_key(&press(Key::F(40), Modifiers::empty()), &kitty(flags)),
        None
    );
}

#[test]
fn a_press_is_the_same_bytes_with_or_without_event_types_once_a_flag_is_set() {
    for key in [Key::Char('a'), Key::Escape, Key::CapsLock, Key::Up, Key::F(13)] {
        for mods in [Modifiers::empty(), Modifiers::ctrl()] {
            let event = press(key, mods);
            let without = kitty(KeyboardFlags::disambiguate());
            let with = kitty(KeyboardFlags::disambiguate() | KeyboardFlags::event_types());
            assert_eq!(encode_key(&event, &with), encode_key(&event, &without), "{key:?}");
        }
    }
}

#[test]
fn a_release_is_silent_without_event_types_under_any_other_flag() {
    for flags in [
        KeyboardFlags::none(),
        KeyboardFlags::disambiguate(),
        KeyboardFlags::all_keys() | KeyboardFlags::associated_text(),
    ] {
        let event = with_kind(Key::Up, Modifiers::shift(), KeyKind::Release);
        assert_eq!(encode_key(&event, &kitty(flags)), None);
    }
}

#[test]
fn the_modifier_parameter_tops_out_at_sixteen() {
    let all = Modifiers::shift() | Modifiers::alt() | Modifiers::ctrl() | Modifiers::logo();
    assert_eq!(text(Key::Delete, all), "\x1b[3;16~");
}

#[test]
fn a_modified_repeat_under_event_types_carries_both_fields() {
    assert_eq!(
        kitty_bytes(
            &with_kind(Key::Char('a'), Modifiers::ctrl(), KeyKind::Repeat),
            KeyboardFlags::all_keys() | KeyboardFlags::event_types()
        ),
        "\x1b[97;5:2u"
    );
}

#[test]
fn several_characters_of_associated_text_are_separated_by_colons() {
    let event = KeyEvent {
        text: Some("ab".into()),
        ..press(Key::Char('a'), Modifiers::empty())
    };
    assert_eq!(
        kitty_bytes(&event, KeyboardFlags::all_keys() | KeyboardFlags::associated_text()),
        "\x1b[97;1;97:98u"
    );
}

#[test]
fn empty_associated_text_gets_no_field() {
    let event = KeyEvent {
        text: Some(String::new()),
        ..press(Key::Char('a'), Modifiers::empty())
    };
    assert_eq!(
        kitty_bytes(&event, KeyboardFlags::all_keys() | KeyboardFlags::associated_text()),
        "\x1b[97u"
    );
}

#[test]
fn urxvt_reports_modifiers_and_motion_in_the_value() {
    let modes = mouse_modes(MouseMode::Motion, MouseEncoding::Urxvt);
    assert_eq!(
        encode_mouse(mouse(MouseButton::Right, MouseAction::Motion, 9, 19, Modifiers::ctrl()), &modes)
            .unwrap(),
        b"\x1b[82;10;20M"
    );
}

#[test]
fn a_plain_paste_is_its_utf8() {
    assert_eq!(encode_paste("héllo", &Modes::default()), "héllo".as_bytes());
}

#[test]
fn a_marker_that_stripping_puts_together_is_stripped_too() {
    // Removing the marker can bring two halves together into a new one, and that one would
    // close the bracket as surely as the first, so it goes as well.
    assert_eq!(encode_paste("\x1b[20\x1b[201~1~", &Modes::default()), b"");
    let mut modes = Modes::default();
    modes.bracketed_paste = true;
    assert_eq!(
        encode_paste("a\x1b[20\x1b[201~1~b", &modes),
        b"\x1b[200~ab\x1b[201~"
    );
}

#[test]
fn a_bracketed_paste_holds_the_closing_marker_once_at_its_end() {
    let mut modes = Modes::default();
    modes.bracketed_paste = true;
    for text in ["", "plain", "\x1b[201~", "\x1b[2\x1b[20\x1b[201~1~01~", "\x1b[201\x1b[201~~"] {
        let sent = encode_paste(text, &modes);
        let count = sent.windows(6).filter(|w| *w == b"\x1b[201~").count();
        assert_eq!(count, 1, "{text:?}");
        assert!(sent.ends_with(b"\x1b[201~"), "{text:?}");
        assert!(sent.starts_with(b"\x1b[200~"), "{text:?}");
    }
}

#[test]
fn the_composed_text_is_read_only_when_the_program_asked_for_it() {
    let plain = press(Key::Char('a'), Modifiers::default());
    let composed = KeyEvent { text: Some("é".to_string()), ..plain.clone() };
    let all_keys = modes_with(|modes| {
        modes.keyboard.all_keys = true;
    });
    for modes in [Modes::default(), all_keys] {
        assert_eq!(encode_key(&composed, &modes), encode_key(&plain, &modes));
    }
    let with_text = modes_with(|modes| {
        modes.keyboard.all_keys = true;
        modes.keyboard.associated_text = true;
    });
    assert_ne!(encode_key(&composed, &with_text), encode_key(&plain, &with_text));
}
