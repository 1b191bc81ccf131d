use roleman::terminal::{
    app_bundle_name_from_command, app_name_for_command, guess_gui_app_name_from_command, is_shell_command,
    terminal_app_for_command, terminal_app_from_term_program, title_case_identifier,
};

#[test]
fn detects_terminal_from_command_basename() {
    assert_eq!(terminal_app_for_command("/Applications/iTerm.app/Contents/MacOS/iTerm2"), Some("iTerm"));
    assert_eq!(terminal_app_for_command("/Applications/Warp.app/Contents/MacOS/Warp"), Some("Warp"));
    assert_eq!(terminal_app_for_command("/usr/bin/gnome-terminal-server"), Some("GNOME Terminal"));
    assert_eq!(terminal_app_for_command("wezterm-gui"), Some("WezTerm"));
    assert_eq!(terminal_app_for_command("-zsh"), None);
}

#[test]
fn detects_vscode_from_app_path() {
    assert_eq!(
        terminal_app_for_command("/Applications/Visual Studio Code.app/Contents/MacOS/Electron"),
        Some("Visual Studio Code")
    );
}

#[test]
fn extracts_app_name_from_bundle_path() {
    assert_eq!(
        app_bundle_name_from_command("/Applications/Ghostty.app/Contents/MacOS/ghostty"),
        Some("Ghostty".to_string())
    );
    assert_eq!(
        app_bundle_name_from_command("/Applications/iTerm2.app/Contents/MacOS/iTerm2"),
        Some("iTerm".to_string())
    );
}

#[test]
fn detects_shell_commands() {
    assert!(is_shell_command("/bin/zsh"));
    assert!(is_shell_command("-bash"));
    assert!(is_shell_command("pwsh.exe"));
    assert!(!is_shell_command("/Applications/Terminal.app/Contents/MacOS/Terminal"));
}

#[test]
fn guesses_gui_app_name_without_whitelist() {
    assert_eq!(
        guess_gui_app_name_from_command("/Applications/Ghostty.app/Contents/MacOS/ghostty"),
        Some("Ghostty".to_string())
    );
    assert_eq!(guess_gui_app_name_from_command("/opt/homebrew/bin/ghostty"), Some("Ghostty".to_string()));
    assert_eq!(guess_gui_app_name_from_command("/bin/zsh"), None);
    assert_eq!(guess_gui_app_name_from_command("launchd"), None);
}

#[test]
fn title_cases_identifiers() {
    assert_eq!(title_case_identifier("ghostty"), "Ghostty");
    assert_eq!(title_case_identifier("windows_terminal"), "Windows Terminal");
    assert_eq!(title_case_identifier("wezterm"), "Wezterm");
}

#[test]
fn classifier_edge_cases() {
    assert_eq!(title_case_identifier("--"), "--");
    assert_eq!(title_case_identifier("a1-b2"), "A1 B2");
    assert_eq!(terminal_app_for_command("  \"/usr/bin/kitty\"  "), Some("kitty"));
    assert_eq!(terminal_app_for_command(""), None);
    assert_eq!(app_name_for_command("/Applications/Foo.app/Contents/MacOS/foo"), Some("Foo".to_string()));
    assert_eq!(app_bundle_name_from_command("/usr/bin/foo"), None);
    assert_eq!(terminal_app_from_term_program("iTerm.app"), Some("iTerm".to_string()));
    assert_eq!(terminal_app_from_term_program("my_term"), Some("My Term".to_string()));
    assert_eq!(terminal_app_from_term_program("  "), None);
}
