use zet::rgb::Rgb;

#[test]
fn hex_roundtrips_through_the_display_form() {
    for rgb in [
        Rgb::black(),
        Rgb::white(),
        Rgb::new(0x0a, 0x0b, 0x0d),
        Rgb::new(0xff, 0xa6, 0x2b),
        Rgb::new(1, 2, 3),
    ] {
        assert_eq!(Rgb::from_hex(&rgb.to_hex()), Some(rgb), "{rgb:?}");
    }
}

#[test]
fn hex_accepts_both_cases_and_an_optional_hash() {
    let expected = Rgb::new(0xab, 0xcd, 0xef);
    for written in ["#abcdef", "abcdef", "#ABCDEF", "ABCDEF", "#AbCdEf"] {
        assert_eq!(Rgb::from_hex(written), Some(expected), "{written}");
    }
}

#[test]
fn hex_refuses_everything_that_is_not_six_digits() {
    for rejected in [
        "",
        "#",
        "#fff",
        "fff",
        "#ffff",
        "#ffffffff",
        "#gggggg",
        "#12345",
        "#1234567",
        " #123456",
        "#123456 ",
        "rgb(1,2,3)",
    ] {
        assert_eq!(Rgb::from_hex(rejected), None, "{rejected:?} was accepted");
    }
}

#[test]
fn the_display_form_is_lower_case_with_a_hash() {
    assert_eq!(Rgb::new(0xAB, 0x0C, 0xEF).to_hex(), "#ab0cef");
    assert_eq!(Rgb::black().to_hex(), "#000000");
    assert_eq!(Rgb::white().to_hex(), "#ffffff");
}

#[test]
fn an_array_and_a_colour_convert_both_ways() {
    let c = Rgb::new(1, 2, 3);
    assert_eq!(c.to_array(), [1, 2, 3]);
    assert_eq!(Rgb::from([1u8, 2, 3]), c);
    let back: [u8; 3] = c.into();
    assert_eq!(back, [1, 2, 3]);
}

#[test]
fn a_parsed_colour_is_written_back_in_lowercase() {
    assert_eq!(Rgb::from_hex("#AbCdEf").map(|c| c.to_hex()), Some("#abcdef".to_string()));
    assert_eq!(Rgb::from_hex("00FF7f").map(|c| c.to_hex()), Some("#00ff7f".to_string()));
}
