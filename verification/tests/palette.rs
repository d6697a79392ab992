use zet::palette::palette_for;
use zet::palette::Palette;
use zet::rgb::Rgb;

#[test]
fn the_instrument_palette_matches_the_design_document() {
    let palette = Palette::instrument();
    let documented = [
        ("ground", "#0a0b0d"),
        ("surface", "#0f1114"),
        ("surface-raised", "#15181c"),
        ("hairline", "#23272d"),
        ("hairline-strong", "#333941"),
        ("ink", "#e7e9ec"),
        ("ink-mid", "#99a0a8"),
        ("ink-dim", "#7b838d"),
        ("signal", "#ffa62b"),
        ("signal-dim", "#8a5a17"),
        ("danger", "#ff6b5e"),
        ("ok", "#57d9a3"),
    ];
    for ((name, actual), (_, expected)) in palette.all().iter().zip(documented) {
        assert_eq!(actual.to_hex(), expected, "{name}");
    }
}

#[test]
fn every_hairline_is_visible_against_what_it_divides() {
    let p = Palette::instrument();
    for (name, surface) in [("surface", p.surface), ("ground", p.ground)] {
        assert_ne!(p.hairline, surface, "hairline vanishes on {name}");
        assert_ne!(p.hairline_strong, surface, "hairline-strong vanishes on {name}");
    }
}

#[test]
fn the_high_contrast_palette_is_black_and_white_around_the_system_highlight() {
    let highlight = Rgb::new(0x00, 0x78, 0xd4);
    let p = Palette::high_contrast(highlight);
    assert_eq!(p.ground, Rgb::black());
    assert_eq!(p.ink, Rgb::white());
    assert_eq!(p.hairline, Rgb::white());
    assert_eq!(p.signal, highlight);
}

#[test]
fn the_palette_lists_its_roles_by_name_in_order() {
    let names: Vec<&str> = Palette::instrument().all().iter().map(|(n, _)| *n).collect();
    assert_eq!(
        names,
        vec![
            "ground",
            "surface",
            "surface-raised",
            "hairline",
            "hairline-strong",
            "ink",
            "ink-mid",
            "ink-dim",
            "signal",
            "signal-dim",
            "danger",
            "ok"
        ]
    );
}

#[test]
fn forced_colors_overrides_the_chrome_only_when_asked() {
    let highlight = Rgb::new(0x00, 0x78, 0xd4);
    assert_eq!(palette_for(true, Some(highlight)), Palette::high_contrast(highlight));
    assert_eq!(palette_for(false, Some(highlight)), Palette::instrument());
    assert_eq!(palette_for(true, None), Palette::instrument());
}
