use roleman::hooks::{has_active_hook, hook_prompt_mode, install_contents, remove_hook_lines, unset_payload};
use roleman::session::{account_name_from_input, is_yes, resolve_identity, selected_index, IdentityChoice};
use roleman::text::split_lines;
use roleman::{App, AppAction, AppOptions, Config, Error, HookPromptMode, SsoIdentity};

fn named_identity(name: &str) -> SsoIdentity {
    SsoIdentity {
        name: name.into(),
        start_url: format!("https://{name}.awsapps.com/start"),
        sso_region: "us-east-1".into(),
        accounts: Vec::new(),
        ignore_roles: Vec::new(),
    }
}

#[test]
fn resolves_identity_by_precedence() {
    let mut config = Config::default();
    config.identities = vec![named_identity("a"), named_identity("b"), named_identity("b")];
    let mut options = AppOptions::default();
    options.account = Some("b".into());
    assert!(matches!(resolve_identity(&options, &config, true), Ok(IdentityChoice::Configured(1))));
    options.account = Some("zzz".into());
    assert!(matches!(resolve_identity(&options, &config, true), Err(Error::MissingAccount)));

    let mut manual = AppOptions::default();
    manual.start_url = Some("https://x.awsapps.com/start".into());
    assert!(matches!(resolve_identity(&manual, &config, true), Err(Error::MissingRegion)));
    manual.sso_region = Some("eu-west-1".into());
    match resolve_identity(&manual, &Config::default(), false) {
        Ok(IdentityChoice::Manual { identity, offer_save }) => {
            assert_eq!(identity.name, "manual");
            assert!(offer_save);
        }
        _ => panic!("expected a manual identity"),
    }

    let plain = AppOptions::default();
    assert!(matches!(resolve_identity(&plain, &config, true), Ok(IdentityChoice::Prompt)));
    config.default_identity = Some("b".into());
    assert!(matches!(resolve_identity(&plain, &config, true), Ok(IdentityChoice::Configured(1))));
    assert!(matches!(resolve_identity(&plain, &Config::default(), true), Err(Error::MissingAccount)));
}

#[test]
fn parses_operator_answers() {
    assert!(is_yes(" Yes\n"));
    assert!(is_yes("y"));
    assert!(!is_yes("no"));
    assert_eq!(selected_index("2\n", 3), Some(1));
    assert_eq!(selected_index("0", 3), None);
    assert_eq!(selected_index("4", 3), None);
    assert_eq!(selected_index("x", 3), None);
    assert_eq!(selected_index("+3", 3), Some(2));
    assert_eq!(selected_index("-1", 3), None);
    assert_eq!(selected_index("", 3), None);
    assert_eq!(selected_index("+", 3), None);
    assert_eq!(selected_index("99999999999999999999999", 3), None);
    assert_eq!(selected_index("003", 3), Some(2));
    assert_eq!(account_name_from_input("  \n", "https://acme.awsapps.com/start"), "acme");
    assert_eq!(account_name_from_input(" prod \n", "https://acme.awsapps.com/start"), "prod");
}

#[test]
fn app_prompt_follows_action() {
    let mut options = AppOptions::default();
    assert_eq!(App::new(options.clone()).prompt(), "roleman> ");
    options.action = AppAction::Open;
    assert_eq!(App::new(options).prompt(), "roleman open> ");
}

#[test]
fn splits_lines_like_std() {
    for text in ["", "a", "a\n", "a\r\nb", "a\n\nb\n", "\n", "x\r"] {
        let expected: Vec<String> = text.lines().map(|l| l.to_string()).collect();
        assert_eq!(split_lines(text), expected, "{text:?}");
    }
}

#[test]
fn detects_and_removes_installed_hook() {
    let rc = "export PATH=/bin\n# eval \"$(roleman hook zsh)\"\neval \"$(roleman hook zsh)\"\nalias rl='roleman'\n";
    assert!(has_active_hook(rc, "eval \"$(roleman hook zsh)\""));
    assert!(!has_active_hook("# _ROLEMAN_HOOK_ENV\nls\n", "eval \"$(roleman hook zsh)\""));
    assert_eq!(remove_hook_lines(rc), "export PATH=/bin\n# eval \"$(roleman hook zsh)\"");
    assert_eq!(
        install_contents("export PATH=/bin", "roleman hook fish | source", Some("alias rl roleman")),
        "export PATH=/bin\n\nroleman hook fish | source\nalias rl roleman\n"
    );
    assert_eq!(install_contents("", "x", None), "\nx\n");
    assert!(unset_payload().starts_with("unset AWS_ACCESS_KEY_ID"));
}

#[test]
fn hook_prompt_defaults() {
    let mut config = Config::default();
    assert_eq!(hook_prompt_mode(&config), HookPromptMode::Always);
    config.prompt_for_hook = Some(false);
    assert_eq!(hook_prompt_mode(&config), HookPromptMode::Never);
    config.hook_prompt = Some(HookPromptMode::Outdated);
    assert_eq!(hook_prompt_mode(&config), HookPromptMode::Outdated);
}
