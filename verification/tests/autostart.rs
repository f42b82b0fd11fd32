use claude_overlay::autostart::build_command;

#[test]
fn build_command_quotes_path() {
    let cmd = build_command(r"C:\Users\John Doe\.local\bin\agent-overlay.exe");
    assert_eq!(
        cmd,
        r#""C:\Users\John Doe\.local\bin\agent-overlay.exe" --daemon"#
    );
}

#[test]
fn build_command_of_empty_path() {
    assert_eq!(build_command(""), "\"\" --daemon");
}
