use zet::keymap::Keymap;

#[test]
fn a_binding_reads_back_as_it_was_written() {
    let mut keys = Keymap::new();
    keys.insert("paste", "Ctrl+V");
    keys.insert("copy", "Ctrl+C");
    assert_eq!(keys.get("paste").as_deref(), Some("Ctrl+V"));
    assert_eq!(keys.get("copy").as_deref(), Some("Ctrl+C"));
    assert_eq!(keys.get("cut"), None);
}

#[test]
fn writing_a_name_again_replaces_its_chord() {
    let mut keys = Keymap::new();
    keys.insert("paste", "Ctrl+V");
    keys.insert("paste", "Shift+Insert");
    assert_eq!(keys.len(), 1);
    assert_eq!(keys.get("paste").as_deref(), Some("Shift+Insert"));
}

#[test]
fn entries_come_out_in_name_order() {
    let mut keys = Keymap::new();
    for name in ["quit", "copy", "find", "Zed", "a", "aa", ""] {
        keys.insert(name, name);
    }
    let names: Vec<String> = keys.entries().into_iter().map(|(name, _)| name).collect();
    assert_eq!(names, vec!["", "Zed", "a", "aa", "copy", "find", "quit"]);
    assert_eq!(keys.name_at(3), "aa");
    assert_eq!(keys.chord_at(6), "quit");
}

#[test]
fn clearing_an_entry_keeps_its_name() {
    let mut keys = Keymap::new();
    keys.insert("copy", "Ctrl+C");
    keys.clear_at(0);
    assert_eq!(keys.get("copy").as_deref(), Some(""));
    assert_eq!(keys.len(), 1);
}
