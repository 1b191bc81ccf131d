use roleman::shell::shell_for_name;
use roleman::Shell;

#[test]
fn resolves_supported_shells() {
    assert!(shell_for_name("bash").is_some());
    assert!(shell_for_name("zsh").is_some());
    assert!(shell_for_name("fish").is_some());
}

#[test]
fn fish_uses_fish_specific_install_line() {
    let fish = shell_for_name("fish").expect("fish shell should be supported");
    assert_eq!(fish.install_line(), "roleman hook fish | source");
}

#[test]
fn other_shells_use_eval_and_unknown_is_none() {
    let zsh = shell_for_name("zsh").unwrap();
    assert_eq!(zsh.install_line(), "eval \"$(roleman hook zsh)\"");
    assert_eq!(zsh.reload_command("/home/u/.zshrc"), "source /home/u/.zshrc");
    assert!(shell_for_name("tcsh").is_none());
    assert!(shell_for_name("bash").unwrap().hook_snippet().contains("PROMPT_COMMAND"));
}
