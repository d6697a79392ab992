use zet::rgb::Rgb;
use zet::theme::{
    builtin, by_slug, contrast_theme, default_theme, slug_of, zet_dark, ColorSpec, ANSI_EXEMPT,
    ANSI_LEN,
};

#[test]
fn every_theme_has_a_unique_slug_and_name() {
    let mut slugs: Vec<&str> = builtin().iter().map(|t| t.slug).collect();
    let mut names: Vec<&str> = builtin().iter().map(|t| t.name).collect();
    let (slug_count, name_count) = (slugs.len(), names.len());
    slugs.sort_unstable();
    slugs.dedup();
    names.sort_unstable();
    names.dedup();
    assert_eq!(slugs.len(), slug_count, "two themes share a slug");
    assert_eq!(names.len(), name_count, "two themes share a name");
}

#[test]
fn every_theme_is_reachable_by_its_slug() {
    for theme in builtin() {
        assert!(
            by_slug(theme.slug).is_some_and(|found| found.name == theme.name),
            "{} is not reachable",
            theme.slug
        );
    }
}

#[test]
fn imported_themes_are_marked_as_published() {
    for theme in builtin()
        .iter()
        .filter(|t| t.slug != "zet-dark" && t.slug != "zet-light")
    {
        if theme.slug.starts_with("zet-") {
            assert!(!theme.published, "{} is zet's own", theme.slug);
        } else {
            assert!(theme.published, "{} is imported", theme.slug);
        }
    }
}

#[test]
fn the_exempt_indices_are_the_two_dims() {
    assert_eq!(ANSI_EXEMPT, [0, 8]);
    assert_eq!(zet_dark().audited_colors().len(), ANSI_LEN - ANSI_EXEMPT.len());
}

#[test]
fn default_resolves_to_the_themes_own_foreground_and_background() {
    let theme = default_theme();
    assert_eq!(theme.resolve(ColorSpec::Default, false), theme.foreground);
    assert_eq!(theme.resolve(ColorSpec::Default, true), theme.background);
}

#[test]
fn an_index_below_sixteen_is_the_theme_and_above_it_is_the_specification() {
    let theme = default_theme();
    assert_eq!(theme.resolve(ColorSpec::Indexed(3), false), theme.ansi[3]);
    assert_eq!(theme.resolve(ColorSpec::Indexed(196), false), Rgb::new(255, 0, 0));
    assert_eq!(theme.resolve(ColorSpec::Indexed(232), false), Rgb::new(8, 8, 8));
}

#[test]
fn a_direct_colour_ignores_the_theme_entirely() {
    let theme = default_theme();
    assert_eq!(theme.resolve(ColorSpec::Rgb(1, 2, 3), false), Rgb::new(1, 2, 3));
    assert_eq!(theme.resolve(ColorSpec::Rgb(1, 2, 3), true), Rgb::new(1, 2, 3));
}

#[test]
fn every_index_resolves_to_something() {
    let theme = default_theme();
    for index in 0..=u8::MAX {
        let _ = theme.resolve(ColorSpec::Indexed(index), false);
        let _ = theme.resolve(ColorSpec::Indexed(index), true);
    }
}

#[test]
fn the_cube_and_the_grey_ramp_have_their_documented_levels() {
    let theme = default_theme();
    assert_eq!(theme.resolve(ColorSpec::Indexed(16), false), Rgb::new(0, 0, 0));
    assert_eq!(theme.resolve(ColorSpec::Indexed(17), false), Rgb::new(0, 0, 95));
    assert_eq!(theme.resolve(ColorSpec::Indexed(231), false), Rgb::new(255, 255, 255));
    assert_eq!(theme.resolve(ColorSpec::Indexed(255), false), Rgb::new(238, 238, 238));
    assert_eq!(theme.resolve(ColorSpec::Indexed(15), true), theme.ansi[15]);
}

#[test]
fn the_audited_colours_leave_out_the_exempt_indices() {
    let indices: Vec<usize> = zet_dark().audited_colors().iter().map(|(i, _)| *i).collect();
    assert!(!indices.contains(&0));
    assert!(!indices.contains(&8));
    assert_eq!(indices.len(), 14);
}

#[test]
fn an_unknown_slug_finds_nothing_and_a_name_finds_its_slug() {
    assert!(by_slug("no-such-theme").is_none());
    assert_eq!(default_theme().slug, "zet-dark");
    assert_eq!(contrast_theme().slug, "zet-contrast");
    assert_eq!(slug_of(zet_dark().name), Some("zet-dark"));
    assert_eq!(slug_of("No Such Theme"), None);
}
