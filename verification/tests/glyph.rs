use zet::glyph::{GlyphSpec, Weight};

#[test]
fn a_spec_carries_the_style_explicitly() {
    assert_eq!(GlyphSpec::new('a').weight, Weight::normal());
    assert!(!GlyphSpec::new('a').italic);
    assert_eq!(GlyphSpec::bold('a').weight, Weight::bold());
    assert!(GlyphSpec::italic('a').italic);
    assert_eq!(GlyphSpec::from('a'), GlyphSpec::new('a'));
}

#[test]
fn spec_builders_keep_the_character() {
    let spec = GlyphSpec::new('x').with_weight(Weight::medium()).with_italic(true);
    assert_eq!(spec.ch, 'x');
    assert_eq!(spec.weight, Weight::medium());
    assert!(spec.italic);
}

#[test]
fn weight_is_clamped_to_the_scale_that_means_anything() {
    assert_eq!(Weight::new(0).value(), 100);
    assert_eq!(Weight::new(50).value(), 100);
    assert_eq!(Weight::new(400).value(), 400);
    assert_eq!(Weight::new(9999).value(), 900);
    assert_eq!(Weight::default(), Weight::normal());
}

#[test]
fn the_named_weights_are_the_css_numbers() {
    assert_eq!(Weight::normal().value(), 400);
    assert_eq!(Weight::medium().value(), 500);
    assert_eq!(Weight::bold().value(), 700);
    assert_eq!(Weight::new(100).value(), 100);
    assert_eq!(Weight::new(900).value(), 900);
    assert_eq!(Weight::new(901).value(), 900);
}

#[test]
fn turning_italic_off_again_keeps_the_weight() {
    let spec = GlyphSpec::bold('q').with_italic(true).with_italic(false);
    assert_eq!(spec, GlyphSpec::bold('q'));
}
