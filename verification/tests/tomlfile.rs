use zet::tomlfile::{merged_config_text, same_value, TomlValue};

const HAND_WRITTEN: &str = "\
# zet, configured by hand.
theme = \"nord\" # the blue one

[font]
# I like it big
size = 13.0
";

#[test]
fn saving_over_a_hand_written_file_keeps_its_comments() {
    let fresh = "theme = \"nord\"\n\n[font]\nsize = 16.0\n";
    let written = merged_config_text(HAND_WRITTEN, fresh);
    assert!(written.contains("# zet, configured by hand."), "{written}");
    assert!(written.contains("# the blue one"), "{written}");
    assert!(written.contains("# I like it big"), "{written}");
    assert!(written.contains("16.0"), "{written}");
    assert!(written.contains("theme = \"nord\""), "{written}");
    assert!(!written.contains("13.0"), "{written}");
}

#[test]
fn a_changed_value_keeps_the_comment_on_its_line() {
    let written = merged_config_text("size = 13.0 # big\n", "size = 14.0\n");
    assert_eq!(written, "size = 14.0 # big\n");
}

#[test]
fn saving_a_file_over_itself_changes_nothing() {
    assert_eq!(merged_config_text(HAND_WRITTEN, HAND_WRITTEN), HAND_WRITTEN);
}

#[test]
fn saving_twice_writes_the_same_bytes_the_second_time() {
    let fresh = "theme = \"gruvbox-dark\"\n\n[font]\nsize = 16.0\nfamily = \"Cascadia Mono\"\n";
    let once = merged_config_text(HAND_WRITTEN, fresh);
    let twice = merged_config_text(&once, fresh);
    assert_eq!(once, twice);
}

#[test]
fn a_comment_inside_a_value_survives_a_save_that_did_not_touch_it() {
    let existing = "\
theme = \"nord\"

[font]
fallback = [
    \"Consolas\", # my fallback
    \"Segoe UI Emoji\",
]
size = 15.0
";
    let fresh = "theme = \"gruvbox-dark\"\n\n[font]\nfallback = [\"Consolas\", \"Segoe UI Emoji\"]\nsize = 15.0\n";
    let written = merged_config_text(existing, fresh);
    assert!(written.contains("# my fallback"), "{written}");
    assert!(written.contains("\"Segoe UI Emoji\""), "{written}");
    assert!(written.contains("theme = \"gruvbox-dark\""), "{written}");
}

#[test]
fn a_comment_on_an_inline_table_survives_being_written_out_as_a_section() {
    let existing = "[window]\nbackground = { kind = \"gradient\", from = \"#0a0b0d\", to = \"#1a1030\", angle = 90.0 } # my background\n";
    let fresh = "[window]\n\n[window.background]\nkind = \"gradient\"\nfrom = \"#0a0b0d\"\nto = \"#1a1030\"\nangle = 90.0\n";
    let written = merged_config_text(existing, fresh);
    assert!(written.contains("# my background"), "{written}");
}

#[test]
fn a_save_keeps_the_spelling_of_a_float() {
    let same = merged_config_text("[window]\nopacity = 0.9\n", "[window]\nopacity = 0.9\n");
    assert!(same.contains("\nopacity = 0.9\n"), "{same}");
    let written = merged_config_text("[window]\nopacity = 0.90\n", "[window]\nopacity = 0.9\n");
    assert!(written.contains("\nopacity = 0.90\n"), "{written}");
}

#[test]
fn a_setting_the_fresh_text_no_longer_has_is_dropped_and_a_new_one_added() {
    let written = merged_config_text("theme = \"nord\"\nextra = 1 # gone\n", "theme = \"nord\"\nnew = true\n");
    assert!(!written.contains("extra"), "{written}");
    assert!(written.contains("new = true"), "{written}");
    assert!(written.contains("theme = \"nord\""), "{written}");
}

#[test]
fn a_file_that_is_not_toml_is_replaced_rather_than_merged() {
    let fresh = "theme = \"zet-dark\"\n";
    assert_eq!(merged_config_text("this is not = = toml [[[", fresh), fresh);
    assert_eq!(merged_config_text("  \n\t", fresh), fresh);
}

#[test]
fn values_are_compared_by_what_they_say() {
    let zero = TomlValue::Float(0);
    let minus_zero = TomlValue::Float(0x8000_0000_0000_0000);
    let nan = TomlValue::Float(0x7ff8_0000_0000_0000);
    assert!(same_value(&zero, &minus_zero));
    assert!(!same_value(&nan, &nan));
    let left = TomlValue::Table(vec![
        ("a".to_string(), TomlValue::Integer(1)),
        ("b".to_string(), TomlValue::Text("x".to_string())),
    ]);
    let right = TomlValue::Table(vec![
        ("b".to_string(), TomlValue::Text("x".to_string())),
        ("a".to_string(), TomlValue::Integer(1)),
    ]);
    assert!(same_value(&left, &right));
    let short = TomlValue::Array(vec![TomlValue::Boolean(true)]);
    let long = TomlValue::Array(vec![TomlValue::Boolean(true), TomlValue::Boolean(true)]);
    assert!(!same_value(&short, &long));
    assert!(!same_value(&TomlValue::Integer(1), &TomlValue::Text("1".to_string())));
}
