use zet::pty::{check_size, PtyError};
use zet::cmdline::{build_command_line, push_quoted};

fn units(text: &str) -> Vec<u16> {
    text.encode_utf16().collect()
}

fn quote(value: &str) -> String {
    let mut line = Vec::new();
    push_quoted(&mut line, &units(value));
    String::from_utf16_lossy(&line)
}

#[test]
fn a_simple_path_is_not_quoted() {
    assert_eq!(quote(r"C:\Windows\System32\cmd.exe"), r"C:\Windows\System32\cmd.exe");
}

#[test]
fn a_path_with_a_space_is_quoted() {
    assert_eq!(
        quote(r"C:\Program Files\PowerShell\7\pwsh.exe"),
        r#""C:\Program Files\PowerShell\7\pwsh.exe""#
    );
}

#[test]
fn a_trailing_backslash_does_not_escape_the_closing_quote() {
    assert_eq!(quote(r"C:\Program Files\"), r#""C:\Program Files\\""#);
}

#[test]
fn an_embedded_quote_is_escaped() {
    assert_eq!(quote("say \"hi\""), r#""say \"hi\"""#);
}

#[test]
fn backslashes_before_a_quote_are_doubled() {
    assert_eq!(quote("a\\\"b"), "\"a\\\\\\\"b\"");
}

#[test]
fn a_command_line_starts_with_the_program_and_separates_the_arguments() {
    let line = build_command_line(
        &units(r"C:\Program Files\PowerShell\7\pwsh.exe"),
        &vec![units("-NoLogo"), units("-NoProfile")],
    );
    assert_eq!(line.last(), Some(&0));
    let text = String::from_utf16_lossy(&line[..line.len() - 1]);
    assert_eq!(text, r#""C:\Program Files\PowerShell\7\pwsh.exe" -NoLogo -NoProfile"#);
}

#[test]
fn an_empty_value_and_a_tab_are_quoted() {
    assert_eq!(quote(""), "\"\"");
    assert_eq!(quote("a\tb"), "\"a\tb\"");
}

#[test]
fn quoting_appends_to_what_the_line_already_holds() {
    let mut line = units("x ");
    push_quoted(&mut line, &units("a b"));
    assert_eq!(String::from_utf16_lossy(&line), "x \"a b\"");
}

#[test]
fn a_program_with_no_arguments_is_the_program_and_a_terminator() {
    let line = build_command_line(&units("cmd.exe"), &Vec::new());
    assert_eq!(line, {
        let mut v = units("cmd.exe");
        v.push(0);
        v
    });
}

#[test]
fn a_zero_sized_terminal_is_rejected_before_anything_is_created() {
    assert_eq!(check_size(0, 24), Err(PtyError::EmptySize { cols: 0, rows: 24 }));
    assert_eq!(check_size(80, 0), Err(PtyError::EmptySize { cols: 80, rows: 0 }));
    assert_eq!(check_size(80, 24), Ok(()));
}
