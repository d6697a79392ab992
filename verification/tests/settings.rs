use zet::action::Action;
use zet::bindings::parse_bindings;
use zet::chord::Chord;
use zet::config::{default_keymap, CursorSettings, CursorShape, Diagnostic, Severity, TabPosition, TabSettings};
use zet::settings::{
    adjust, appearance_rows, binding_rows, bind, candidates, follow, next_background_kind,
    next_family, next_image_opacity, next_shape, next_theme, next_thickness, next_window_opacity,
    on_off, problems, setting, step, tabs_rows, terminal_rows, theme_row, title_case, Appearance,
    BackgroundShown, Change, Effect, Id, Kind, Line, Panel, MIN_IMAGE_OPACITY,
};

fn value_of(lines: &[Line], id: Id) -> String {
    lines
        .iter()
        .find(|line| line.id() == Some(id))
        .map(|line| line.value().to_owned())
        .expect("the row is there")
}

#[test]
fn a_problem_with_the_file_is_a_row_with_nothing_to_set() {
    let rows = problems(&vec![
        Diagnostic {
            severity: Severity::Warning,
            message: "cursor.thickness is outside 1 to 8, using 2".to_owned(),
        },
        Diagnostic {
            severity: Severity::Error,
            message: "theme \"nordd\" is not a theme, using zet-dark".to_owned(),
        },
    ]);

    assert_eq!(rows.first().map(Line::text), Some("Problems"));
    let notes: Vec<&Line> = rows.iter().filter(|row| matches!(row, Line::Note(_))).collect();
    for note in &notes {
        assert!(
            note.kind().is_none() && note.id().is_none(),
            "a problem is a row to read, not a row to set"
        );
    }
    assert_eq!(
        notes.iter().map(|note| (note.text(), note.value())).collect::<Vec<_>>(),
        vec![
            ("cursor.thickness is outside 1 to 8, using 2", "warning"),
            ("theme \"nordd\" is not a theme, using zet-dark", "error"),
        ],
        "the severity is the column the configuration reference documents"
    );
}

#[test]
fn a_file_with_nothing_wrong_gets_no_problems_section() {
    assert!(problems(&Vec::new()).is_empty());
}

#[test]
fn binding_a_chord_moves_it_off_whatever_ran_it_before() {
    let mut keys = default_keymap();
    let chord = Chord::parse("Ctrl+Shift+K").expect("a parseable chord");
    bind(&mut keys, Action::NewTab, chord);
    let bound = parse_bindings(&keys);
    let mine: Vec<Action> = bound.iter().filter(|(c, _)| *c == chord).map(|(_, a)| *a).collect();
    assert_eq!(mine, vec![Action::NewTab]);
    assert_eq!(
        bound.iter().filter(|(_, a)| *a == Action::NewTab).count(),
        1,
        "an action bound twice runs from whichever chord the parse reached first"
    );
}

#[test]
fn an_action_a_chord_was_taken_from_is_unbound_in_the_file_and_not_merely_absent() {
    let mut keys = default_keymap();
    let chord = Chord::parse("Ctrl+Shift+W").expect("a parseable chord");
    bind(&mut keys, Action::Find, chord);

    assert_eq!(keys.get("close-tab").as_deref(), Some(""));
    assert_eq!(keys.get("find").as_deref(), Some("Ctrl+Shift+W"));
    let rows = binding_rows(&parse_bindings(&keys));
    assert_eq!(value_of(&rows, Id::Binding(Action::CloseTab)), "Unbound");
}

#[test]
fn binding_a_chord_takes_it_off_a_line_spelled_differently() {
    for (spelling, chosen) in [("ctrl+shift+P", "Ctrl+Shift+P"), ("Shift+Ctrl+P", "Ctrl+Shift+P")] {
        let mut keys = default_keymap();
        let chord = Chord::parse(chosen).expect("a parseable chord");
        keys.insert("copy", spelling);
        bind(&mut keys, Action::Paste, chord);

        let bound = parse_bindings(&keys);
        let mine: Vec<Action> = bound.iter().filter(|(c, _)| *c == chord).map(|(_, a)| *a).collect();
        assert_eq!(mine, vec![Action::Paste], "`copy = {spelling:?}` kept the keystroke");
        assert_eq!(bound.iter().filter(|(_, a)| *a == Action::Copy).count(), 0);
    }
}

#[test]
fn a_binding_row_shows_the_chord_that_actually_runs_it() {
    let mut keys = default_keymap();
    bind(&mut keys, Action::Quit, Chord::parse("Ctrl+Q").expect("a parseable chord"));
    let rows = binding_rows(&parse_bindings(&keys));
    assert_eq!(value_of(&rows, Id::Binding(Action::Quit)), "Ctrl+Q");
}

#[test]
fn every_action_has_a_binding_row_in_the_panels_order() {
    let rows = binding_rows(&parse_bindings(&default_keymap()));
    assert_eq!(rows.len(), 1 + Action::ALL.len());
    assert_eq!(rows[0].text(), "Keys");
    for (row, action) in rows[1..].iter().zip(Action::ALL) {
        assert_eq!(row.id(), Some(Id::Binding(action)));
        assert_eq!(row.kind(), Some(Kind::Chord));
    }
    assert_eq!(value_of(&rows, Id::Binding(Action::NewTab)), "Ctrl+Shift+T");
    assert_eq!(value_of(&rows, Id::Binding(Action::Quit)), "Alt+F4");
    assert_eq!(rows[1].text(), "New tab");
}

#[test]
fn a_stepper_wraps_a_ring_and_enters_it_from_the_end_it_comes_from() {
    assert_eq!(step(3, Some(0), false), 1);
    assert_eq!(step(3, Some(2), false), 0);
    assert_eq!(step(3, Some(0), true), 2);
    assert_eq!(step(3, Some(2), true), 1);
    assert_eq!(step(3, None, false), 0);
    assert_eq!(step(3, None, true), 2);
    assert_eq!(step(0, None, true), 0);
}

#[test]
fn a_config_spelling_reads_as_a_title() {
    assert_eq!(title_case("hollow-block"), "Hollow Block");
    assert_eq!(title_case("top"), "Top");
    assert_eq!(title_case(""), "");
    assert_eq!(title_case("a--b"), "A  B");
}

#[test]
fn switches_read_as_on_off_or_follow_system() {
    assert_eq!(on_off(true), "On");
    assert_eq!(on_off(false), "Off");
    assert_eq!(follow(true), "Follow system");
    assert_eq!(follow(false), "Off");
}

#[test]
fn the_tabs_section_reads_the_settings() {
    let rows = tabs_rows(&TabSettings { position: TabPosition::Left, open_default_without_asking: false });
    assert_eq!(rows[0].text(), "Tabs");
    assert_eq!(value_of(&rows, Id::TabPosition), "Left");
    assert_eq!(value_of(&rows, Id::OpenWithoutAsking), "Off");
}

#[test]
fn a_block_cursor_has_no_thickness_row() {
    let block = CursorSettings { shape: CursorShape::Block, blink: true, thickness: 2 };
    let rows = terminal_rows("Cascadia Mono", "13 pt", &block);
    assert!(rows.iter().all(|row| row.id() != Some(Id::CursorThickness)));
    let bar = CursorSettings { shape: CursorShape::Bar, blink: false, thickness: 3 };
    let rows = terminal_rows("Cascadia Mono", "13 pt", &bar);
    assert_eq!(value_of(&rows, Id::CursorThickness), "3 px");
    assert_eq!(value_of(&rows, Id::CursorShape), "Bar");
    assert_eq!(value_of(&rows, Id::CursorBlink), "Off");
    assert_eq!(value_of(&rows, Id::FontSize), "13 pt");
}

#[test]
fn an_imported_palette_says_it_ships_as_published() {
    assert_eq!(theme_row("nord").text(), "Theme (as published)");
    assert_eq!(theme_row("nord").value(), "Nord");
    assert_eq!(theme_row("zet-dark").text(), "Theme");
    assert_eq!(theme_row("solarized-dark").value(), "solarized-dark");
}

#[test]
fn a_family_the_machine_does_not_have_is_still_the_one_in_the_file() {
    let families = vec!["Consolas".to_owned(), "No Such Mono".to_owned(), "Cascadia Mono".to_owned()];
    let list = candidates(&"No Such Mono".to_owned(), &families);
    assert_eq!(list, vec!["No Such Mono", "Consolas", "Cascadia Mono"]);
    assert_eq!(next_family(&"No Such Mono".to_owned(), &families, false), "Consolas");
    assert_eq!(next_family(&"No Such Mono".to_owned(), &families, true), "Cascadia Mono");
}

#[test]
fn the_theme_row_walks_the_shipped_themes() {
    assert_eq!(next_theme("zet-dark", false), "zet-light");
    assert_eq!(next_theme("zet-dark", true), "solarized-light");
    assert_eq!(next_theme("not-a-theme", false), "zet-dark");
    assert_eq!(next_theme("not-a-theme", true), "solarized-light");
}

#[test]
fn the_thickness_stepper_stops_at_its_ends_and_the_shape_row_wraps() {
    assert_eq!(next_thickness(8, false), 8);
    assert_eq!(next_thickness(1, true), 1);
    assert_eq!(next_thickness(2, false), 3);
    assert_eq!(next_thickness(99, true), 8);
    assert_eq!(next_shape(CursorShape::HollowBlock, false), CursorShape::Block);
    assert_eq!(next_shape(CursorShape::Block, true), CursorShape::HollowBlock);
}

#[test]
fn the_opacity_stepper_stops_short_of_a_window_nobody_can_see() {
    let mut panel = panel();
    for _ in 0..20 {
        click(&mut panel, Id::WindowOpacity, true);
    }
    assert_eq!(panel.appearance.window_opacity, 20);

    // And from a value the file set below the floor, the way out is up.
    panel.appearance.window_opacity = 5;
    click(&mut panel, Id::WindowOpacity, false);
    assert_eq!(panel.appearance.window_opacity, 20);

    for _ in 0..20 {
        click(&mut panel, Id::WindowOpacity, false);
    }
    assert_eq!(panel.appearance.window_opacity, 100);

    assert_eq!(next_window_opacity(70, true), 60);
    assert_eq!(next_image_opacity(10, true), 10);
    assert_eq!(next_image_opacity(50, false), 60);
}

#[test]
fn the_background_row_offers_a_picture_only_while_the_file_names_one() {
    assert_eq!(next_background_kind("solid", false, false), "gradient");
    assert_eq!(next_background_kind("gradient", false, false), "solid");
    assert_eq!(next_background_kind("image", true, false), "solid");
    assert_eq!(next_background_kind("image", true, true), "gradient");
}

#[test]
fn a_setting_row_carries_what_it_was_given() {
    let row = setting(Id::Font, "Font", "Consolas".to_owned(), Kind::Choice);
    assert_eq!(row.text(), "Font");
    assert_eq!(row.value(), "Consolas");
    assert_eq!(row.kind(), Some(Kind::Choice));
    assert_eq!(Line::Heading("Keys").value(), "");
}

/// The panel a default configuration shows.
fn panel() -> Panel {
    Panel {
        appearance: Appearance {
            theme: "zet-dark".to_owned(),
            text_scale: "System".to_owned(),
            follow_reduce_motion: true,
            follow_forced_colors: true,
            background: BackgroundShown::Solid,
            window_opacity: 100,
            remember_position: true,
            start_maximized: false,
        },
        text_scale_at: Some(0),
        tabs: TabSettings::default(),
        family: "Cascadia Mono".to_owned(),
        cursor: CursorSettings::default(),
    }
}

/// Every row the panel shows, in order.
fn all_rows(panel: &Panel) -> Vec<Line> {
    let mut rows = appearance_rows(&panel.appearance);
    rows.extend(tabs_rows(&panel.tabs));
    rows.extend(terminal_rows(&panel.family, "13 pt", &panel.cursor));
    rows.extend(binding_rows(&parse_bindings(&default_keymap())));
    rows
}

/// A click, written into the panel the way the host writes it into the file.
fn click(panel: &mut Panel, id: Id, back: bool) -> Effect {
    let change = adjust(panel, id, back, &Vec::new());
    let effect = change.effect();
    match change {
        Change::Theme(slug) => panel.appearance.theme = slug.to_owned(),
        Change::TextScale(at) => panel.text_scale_at = Some(at),
        Change::ReduceMotion(v) => panel.appearance.follow_reduce_motion = v,
        Change::ForcedColors(v) => panel.appearance.follow_forced_colors = v,
        Change::WindowOpacity(p) => panel.appearance.window_opacity = p,
        Change::Background(kind) => {
            panel.appearance.background = match kind {
                "gradient" => BackgroundShown::Gradient(90),
                "image" => panel.appearance.background,
                _ => BackgroundShown::Solid,
            }
        }
        Change::ImageOpacity(p) => panel.appearance.background = BackgroundShown::Image(p),
        Change::RememberPosition(v) => panel.appearance.remember_position = v,
        Change::StartMaximized(v) => panel.appearance.start_maximized = v,
        Change::OpenWithoutAsking(v) => panel.tabs.open_default_without_asking = v,
        Change::TabPosition(p) => panel.tabs.position = p,
        Change::Font(f) => panel.family = f,
        Change::CursorShape(s) => panel.cursor.shape = s,
        Change::CursorBlink(v) => panel.cursor.blink = v,
        Change::CursorThickness(t) => panel.cursor.thickness = t,
        Change::GradientAngle(_) | Change::FontSize(_) | Change::Capture(_) | Change::Nothing => {}
    }
    effect
}

#[test]
fn every_action_has_a_row_and_every_row_names_an_action() {
    let lines = all_rows(&panel());
    for action in Action::ALL {
        let row = lines.iter().find(|line| line.id() == Some(Id::Binding(action)));
        let row = row.unwrap_or_else(|| panic!("{action:?} has no row"));
        assert!(!row.text().is_empty(), "{action:?}'s row has no label");
    }
    let rows = lines.iter().filter(|line| matches!(line.id(), Some(Id::Binding(_)))).count();
    assert_eq!(rows, Action::ALL.len());
}

#[test]
fn the_value_a_row_shows_is_the_value_in_the_file() {
    let mut panel = panel();
    panel.cursor.shape = CursorShape::Bar;
    panel.cursor.thickness = 3;
    panel.cursor.blink = false;
    panel.appearance.text_scale = "150%".to_owned();
    panel.appearance.window_opacity = 85;
    let lines = all_rows(&panel);
    assert_eq!(value_of(&lines, Id::WindowOpacity), "85%");
    assert_eq!(value_of(&lines, Id::CursorShape), "Bar");
    assert_eq!(value_of(&lines, Id::CursorThickness), "3 px");
    assert_eq!(value_of(&lines, Id::CursorBlink), "Off");
    assert_eq!(value_of(&lines, Id::TextScale), "150%");
}

#[test]
fn a_setting_the_system_has_an_answer_to_says_whose_answer_it_is() {
    let mut panel = panel();
    let following = all_rows(&panel);
    assert_eq!(value_of(&following, Id::ReduceMotion), "Follow system");
    assert_eq!(value_of(&following, Id::ForcedColors), "Follow system");
    panel.appearance.follow_reduce_motion = false;
    panel.appearance.follow_forced_colors = false;
    let ignoring = all_rows(&panel);
    assert_eq!(value_of(&ignoring, Id::ReduceMotion), "Off");
    assert_eq!(value_of(&ignoring, Id::ForcedColors), "Off");
}

#[test]
fn a_toggle_flips_either_way_and_a_choice_does_not() {
    let mut panel = panel();
    let before = panel.cursor.blink;
    assert_eq!(click(&mut panel, Id::CursorBlink, false), Effect::Changed);
    assert_ne!(panel.cursor.blink, before);
    click(&mut panel, Id::CursorBlink, true);
    assert_eq!(panel.cursor.blink, before, "a toggle has no direction");

    let shape = panel.cursor.shape;
    click(&mut panel, Id::CursorShape, false);
    let forward = panel.cursor.shape;
    assert_ne!(forward, shape);
    click(&mut panel, Id::CursorShape, true);
    assert_eq!(panel.cursor.shape, shape, "back undoes forward");
}

#[test]
fn the_opacity_stepper_lands_on_the_value_it_started_from() {
    let mut panel = panel();
    panel.appearance.window_opacity = 90;
    for _ in 0..3 {
        click(&mut panel, Id::WindowOpacity, true);
    }
    for _ in 0..3 {
        click(&mut panel, Id::WindowOpacity, false);
    }
    assert_eq!(panel.appearance.window_opacity, 90);
}

#[test]
fn every_choice_answers_both_ways_from_every_value_it_offers() {
    for id in [Id::Theme, Id::TextScale, Id::CursorShape, Id::TabPosition] {
        let mut panel = panel();
        let start = (panel.appearance.theme.clone(), panel.text_scale_at, panel.cursor.shape, panel.tabs.position);
        click(&mut panel, id, true);
        let back = (panel.appearance.theme.clone(), panel.text_scale_at, panel.cursor.shape, panel.tabs.position);
        assert_ne!(back, start, "{id:?} did not move backwards");
        click(&mut panel, id, false);
        let forward = (panel.appearance.theme.clone(), panel.text_scale_at, panel.cursor.shape, panel.tabs.position);
        assert_eq!(forward, start, "{id:?} did not come back");
    }
}

#[test]
fn the_switches_the_panel_shows_are_the_switches_the_file_gets() {
    let mut panel = panel();
    panel.appearance.remember_position = false;
    panel.appearance.start_maximized = true;
    panel.tabs.open_default_without_asking = false;
    let rows = all_rows(&panel);
    assert_eq!(value_of(&rows, Id::RememberPosition), "Off");
    assert_eq!(value_of(&rows, Id::StartMaximized), "On");
    assert_eq!(value_of(&rows, Id::OpenWithoutAsking), "Off");
    for id in [Id::RememberPosition, Id::StartMaximized, Id::OpenWithoutAsking] {
        assert_eq!(click(&mut panel, id, false), Effect::Changed);
    }
    assert!(panel.appearance.remember_position);
    assert!(!panel.appearance.start_maximized);
    assert!(panel.tabs.open_default_without_asking);
}

#[test]
fn a_toggle_has_no_direction() {
    let mut panel = panel();
    let before = panel.appearance.start_maximized;
    click(&mut panel, Id::StartMaximized, false);
    assert_ne!(panel.appearance.start_maximized, before);
    click(&mut panel, Id::StartMaximized, true);
    assert_eq!(panel.appearance.start_maximized, before);
    for id in [Id::ReduceMotion, Id::ForcedColors, Id::CursorBlink, Id::RememberPosition] {
        assert_eq!(adjust(&panel, id, true, &Vec::new()), adjust(&panel, id, false, &Vec::new()));
    }
}

#[test]
fn a_picture_the_file_names_is_a_row_the_panel_shows_and_can_step_away_from() {
    let mut panel = panel();
    panel.appearance.background = BackgroundShown::Image(50);
    let shown = all_rows(&panel);
    assert_eq!(value_of(&shown, Id::Background), "Image");
    assert_eq!(value_of(&shown, Id::ImageOpacity), "50%");
    assert_eq!(click(&mut panel, Id::Background, false), Effect::Changed);
    assert_eq!(panel.appearance.background, BackgroundShown::Solid);
    let after = all_rows(&panel);
    assert!(!after.iter().any(|line| line.id() == Some(Id::ImageOpacity)));
}

#[test]
fn the_kinds_the_background_row_offers_are_the_ones_the_panel_can_write_whole() {
    let mut panel = panel();
    for _ in 0..6 {
        click(&mut panel, Id::Background, false);
        assert!(!matches!(panel.appearance.background, BackgroundShown::Image(_)));
    }
}

#[test]
fn stepping_back_from_the_flat_ground_reaches_the_gradient_and_not_the_other_way_round() {
    let mut panel = panel();
    click(&mut panel, Id::Background, true);
    assert!(matches!(panel.appearance.background, BackgroundShown::Gradient(_)));
    click(&mut panel, Id::Background, false);
    assert_eq!(panel.appearance.background, BackgroundShown::Solid, "and back again");
}

#[test]
fn a_row_that_belongs_to_one_kind_is_not_drawn_for_another() {
    let mut panel = panel();
    let solid = all_rows(&panel);
    assert_eq!(value_of(&solid, Id::Background), "Solid");
    for id in [Id::ImageOpacity, Id::GradientAngle] {
        assert!(!solid.iter().any(|line| line.id() == Some(id)), "{id:?}");
    }
    panel.appearance.background = BackgroundShown::Gradient(90);
    let gradient = all_rows(&panel);
    assert_eq!(value_of(&gradient, Id::Background), "Gradient");
    assert_eq!(value_of(&gradient, Id::GradientAngle), "90\u{b0}");
    assert!(!gradient.iter().any(|line| line.id() == Some(Id::ImageOpacity)));
}

#[test]
fn the_picture_opacity_stepper_stops_short_of_a_picture_nobody_can_see() {
    let mut panel = panel();
    panel.appearance.background = BackgroundShown::Image(50);
    for _ in 0..30 {
        click(&mut panel, Id::ImageOpacity, true);
    }
    assert_eq!(panel.appearance.background, BackgroundShown::Image(MIN_IMAGE_OPACITY));
    for _ in 0..30 {
        click(&mut panel, Id::ImageOpacity, false);
    }
    assert_eq!(panel.appearance.background, BackgroundShown::Image(100));
}

#[test]
fn every_id_has_a_row_that_can_be_found_again() {
    let mut panel = panel();
    panel.cursor.shape = CursorShape::Bar;
    let lines = all_rows(&panel);
    for id in [
        Id::Theme,
        Id::TextScale,
        Id::ReduceMotion,
        Id::ForcedColors,
        Id::WindowOpacity,
        Id::TabPosition,
        Id::Font,
        Id::FontSize,
        Id::CursorShape,
        Id::CursorBlink,
        Id::CursorThickness,
        Id::Background,
        Id::RememberPosition,
        Id::StartMaximized,
        Id::OpenWithoutAsking,
    ] {
        assert!(lines.iter().any(|line| line.id() == Some(id)), "{id:?} has no row");
    }
}

#[test]
fn the_heading_text_is_not_a_value_that_could_be_clicked() {
    for line in all_rows(&panel()) {
        if let Line::Heading(text) = line {
            assert!(line.kind().is_none());
            assert!(line.id().is_none());
            assert_eq!(line.value(), "");
            assert!(!text.is_empty());
        }
    }
}

#[test]
fn a_click_on_a_kind_the_file_is_not_in_changes_nothing() {
    let panel = panel();
    assert_eq!(adjust(&panel, Id::ImageOpacity, false, &Vec::new()), Change::Nothing);
    assert_eq!(adjust(&panel, Id::GradientAngle, true, &Vec::new()), Change::Nothing);
    assert_eq!(Change::Nothing.effect(), Effect::Nothing);
    assert_eq!(
        adjust(&panel, Id::Binding(Action::Copy), false, &Vec::new()).effect(),
        Effect::Capture(Action::Copy)
    );
    assert_eq!(adjust(&panel, Id::FontSize, true, &Vec::new()), Change::FontSize(true));
}

#[test]
fn the_appearance_section_is_in_the_panels_order() {
    let rows = appearance_rows(&panel().appearance);
    let ids: Vec<Option<Id>> = rows.iter().map(|row| row.id()).collect();
    assert_eq!(
        ids,
        vec![
            None,
            Some(Id::Theme),
            Some(Id::TextScale),
            Some(Id::ReduceMotion),
            Some(Id::ForcedColors),
            Some(Id::Background),
            Some(Id::WindowOpacity),
            Some(Id::RememberPosition),
            Some(Id::StartMaximized),
        ]
    );
    assert_eq!(rows[0].text(), "Appearance");
    assert_eq!(rows[1].value(), "zet dark");
}
