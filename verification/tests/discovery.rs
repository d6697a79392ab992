use zet::discovery::{
    decode_console_output, dedupe, equivalently, order, parse_wsl_list, rank, search_extensions,
    Distro,
};

fn utf16le(text: &str) -> Vec<u8> {
    text.encode_utf16().flat_map(u16::to_le_bytes).collect()
}

fn ordered(ids: &[&str]) -> Vec<String> {
    let ranks: Vec<u8> = ids.iter().map(|id| rank(id)).collect();
    order(&ranks).into_iter().map(|i| ids[i].to_string()).collect()
}

fn entry(program: &str, args: &[&str]) -> (String, Vec<String>) {
    (program.to_string(), args.iter().map(|a| a.to_string()).collect())
}

#[test]
fn a_name_with_an_extension_is_not_expanded() {
    assert_eq!(search_extensions("cmd.exe", None), vec![String::new()]);
    assert_eq!(search_extensions("cmd.exe", Some(".COM;.EXE")), vec![String::new()]);
}

#[test]
fn a_bare_name_is_tried_with_pathext() {
    let extensions = search_extensions("pwsh", None);
    assert_eq!(extensions[0], "", "the bare name comes first");
    assert!(extensions.len() > 1);
    assert!(extensions.iter().all(|e| e == &e.to_lowercase()));
}

#[test]
fn pathext_is_split_lowercased_and_its_empty_pieces_dropped() {
    assert_eq!(
        search_extensions("pwsh", Some(".COM;;.Exe;")),
        vec!["".to_string(), ".com".to_string(), ".exe".to_string()]
    );
    assert_eq!(
        search_extensions("pwsh", None),
        vec!["", ".com", ".exe", ".bat", ".cmd"]
    );
}

#[test]
fn wsl_output_is_decoded_from_utf16() {
    let listing = "  NAME            STATE           VERSION\n* Ubuntu-22.04    Running         2\n  Debian          Stopped         2\n";
    let distros = parse_wsl_list(utf16le(listing).as_slice());
    assert_eq!(
        distros,
        vec![
            Distro { name: "Ubuntu-22.04".into(), default: true },
            Distro { name: "Debian".into(), default: false },
        ]
    );
}

#[test]
fn wsl_output_that_arrives_as_utf8_still_parses() {
    let listing = "NAME  STATE  VERSION\nAlpine  Stopped  2\n";
    let distros = parse_wsl_list(listing.as_bytes());
    assert_eq!(distros.len(), 1);
    assert_eq!(distros[0].name, "Alpine");
}

#[test]
fn the_wsl_header_is_not_a_distribution() {
    let distros = parse_wsl_list(utf16le("NAME STATE VERSION\n").as_slice());
    assert!(distros.is_empty());
}

#[test]
fn an_empty_wsl_listing_produces_nothing() {
    assert!(parse_wsl_list(&[]).is_empty());
    assert!(parse_wsl_list(utf16le("").as_slice()).is_empty());
}

#[test]
fn the_default_marker_is_read_from_the_first_column() {
    let distros = parse_wsl_list(utf16le("* Kali  Running  2\n").as_slice());
    assert_eq!(distros[0].name, "Kali");
    assert!(distros[0].default);
}

#[test]
fn a_distribution_name_is_taken_whole_up_to_the_first_space() {
    let distros = parse_wsl_list(utf16le("Ubuntu-24.04  Stopped  2\n").as_slice());
    assert_eq!(distros[0].name, "Ubuntu-24.04");
}

#[test]
fn a_path_with_a_different_case_or_a_trailing_separator_is_the_same_file() {
    assert!(equivalently(
        r"C:\Windows\System32\cmd.exe",
        r"c:\windows\system32\CMD.EXE"
    ));
    assert!(equivalently(r"C:\Windows", r"C:\Windows\"));
    assert!(!equivalently(
        r"C:\Windows\System32\cmd.exe",
        r"C:\Windows\System32\wsl.exe"
    ));
}

#[test]
fn a_path_written_with_either_separator_is_the_same_file() {
    assert!(equivalently(r"C:/x/pwsh.exe", r"C:\x\pwsh.exe"));
    assert!(equivalently(r"C:\x\\pwsh.exe", r"C:\x\pwsh.exe"));
    assert!(equivalently(r"C:\x\.\pwsh.exe", r"C:\x\pwsh.exe"));
    assert!(equivalently(r"c:/x/pwsh.exe", r"C:\x\pwsh.exe"));
    assert!(!equivalently(r"C:x\pwsh.exe", r"C:\x\pwsh.exe"));
    assert!(!equivalently(r".\pwsh.exe", r"pwsh.exe"));
    assert!(!equivalently(r"C:\x\..\pwsh.exe", r"C:\pwsh.exe"));
}

#[test]
fn a_network_share_is_compared_by_its_components_too() {
    assert!(equivalently(r"\\server\share\x\pwsh.exe", r"//server/share/x//pwsh.exe"));
    assert!(equivalently(r"\\server\share", r"\\server\share\"));
    assert!(!equivalently(r"\\server\share\x", r"\server\share\x"));
    assert!(!equivalently(r"\\?\C:\x\pwsh.exe", r"\\?\C:/x/pwsh.exe"));
    assert!(equivalently(r"\\?\C:\x\pwsh.exe", r"\\?\c:\X\PWSH.EXE"));
}

#[test]
fn paths_taken_as_written_and_device_paths_are_compared_by_their_components() {
    assert!(equivalently(r"\\?\C:\a\\b", r"\\?\C:\a\b"));
    assert!(equivalently(r"\\?\c:\a\b", r"\\?\C:\a\b"));
    assert!(!equivalently(r"\\?\C:\a\.\b", r"\\?\C:\a\b"));
    assert!(equivalently(r"\\?\UNC\server\share\a", r"\\?\UNC\server\share\\a"));
    assert!(!equivalently(r"\\?\UNC\server\share\a", r"\\server\share\a"));
    assert!(equivalently(r"\\.\pipe\x", r"//./pipe/x"));
    assert!(!equivalently(r"\\?\C:\a", r"C:\a"));
}

#[test]
fn the_same_program_found_twice_under_different_spellings_is_one_profile() {
    let entries = vec![
        entry(r"C:\Program Files\PowerShell\7\pwsh.exe", &[]),
        entry(r"C:/Program Files/PowerShell/7/pwsh.exe", &[]),
    ];
    assert_eq!(dedupe(&entries), vec![0]);
}

#[test]
fn duplicates_are_dropped_but_different_arguments_are_not() {
    let cmd = r"C:\Windows\System32\cmd.exe";
    let entries = vec![
        entry(cmd, &[]),
        entry(cmd, &[]),
        entry("wsl.exe", &["-d", "Ubuntu"]),
        entry("wsl.exe", &["-d", "Debian"]),
    ];
    let kept = dedupe(&entries);
    assert_eq!(kept, vec![0, 2, 3], "the second cmd.exe is the same shell");
    assert_eq!(entries[kept[2]].1, vec!["-d".to_string(), "Debian".to_string()]);
}

#[test]
fn the_same_program_spelled_differently_is_still_a_duplicate() {
    let entries = vec![
        entry(r"C:\Program Files\PowerShell\7\pwsh.exe", &[]),
        entry(r"c:\program files\powershell\7\PWSH.EXE", &[]),
        entry(r"C:\Program Files\PowerShell\7\pwsh.exe", &["-NoLogo"]),
    ];
    assert_eq!(dedupe(&entries), vec![0, 2]);
    assert!(dedupe(&Vec::new()).is_empty());
}

#[test]
fn powershell_7_is_the_shell_a_new_tab_opens_whichever_source_found_it() {
    assert_eq!(
        ordered(&["powershell", "cmd", "pwsh", "nu"]),
        vec!["pwsh", "powershell", "cmd", "nu"],
        "a new tab opens the first profile"
    );
}

#[test]
fn everything_that_is_not_one_of_the_three_shells_keeps_the_order_it_was_found_in() {
    assert_eq!(
        ordered(&["nu", "git-bash", "wsl:Ubuntu", "pwsh-alias"]),
        vec!["nu", "git-bash", "wsl:Ubuntu", "pwsh-alias"]
    );
}

#[test]
fn the_ranks_are_the_three_shells_then_everything_else() {
    assert_eq!(rank("pwsh"), 0);
    assert_eq!(rank("powershell"), 1);
    assert_eq!(rank("cmd"), 2);
    assert_eq!(rank("bash"), 3);
    assert_eq!(rank("PWSH"), 3);
    assert!(order(&Vec::new()).is_empty());
    assert_eq!(order(&vec![3, 0, 3, 0]), vec![1, 3, 0, 2]);
}

#[test]
fn console_output_is_decoded_as_utf16_only_when_it_looks_like_it() {
    let long = "NAME  STATE  VERSION  Ubuntu";
    assert_eq!(decode_console_output(&utf16le(long)), long);
    // Six pairs with a zero second byte are too few to call it UTF-16, so it is read as
    // UTF-8, nulls and all.
    assert_eq!(decode_console_output(&utf16le("Ubuntu")), "U\0b\0u\0n\0t\0u\0");
    assert_eq!(decode_console_output(b"Ubuntu"), "Ubuntu");
    assert_eq!(decode_console_output(&[]), "");
    assert_eq!(decode_console_output(&[0xff, 0x41]), "\u{fffd}A");
}

#[test]
fn text_reads_back_from_either_encoding() {
    let accented = "Démarré  Arrêté  café crème";
    assert_eq!(decode_console_output(accented.as_bytes()), accented);
    assert_eq!(decode_console_output(&utf16le(accented)), accented);
    let plain = "0123456789abcdefg";
    assert_eq!(decode_console_output(&utf16le(plain)), plain);
}
