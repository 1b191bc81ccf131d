use roleman::config::AccountRule;
use roleman::selection::{apply_account_filters, console_url, sort_choices};
use roleman::{RoleChoice, SsoIdentity};

fn choice(id: &str, name: &str, role: &str) -> RoleChoice {
    RoleChoice { account_id: id.into(), account_name: name.into(), role_name: role.into() }
}

#[test]
fn sorts_choices_by_precedence_then_name() {
    let identity = SsoIdentity {
        name: "acme".into(),
        start_url: "https://acme.awsapps.com/start".into(),
        sso_region: "us-east-1".into(),
        accounts: vec![
            AccountRule {
                account_id: "2222".into(),
                alias: None,
                ignored: false,
                ignored_roles: Vec::new(),
                precedence: Some(5),
            },
            AccountRule {
                account_id: "1111".into(),
                alias: None,
                ignored: false,
                ignored_roles: Vec::new(),
                precedence: None,
            },
        ],
        ignore_roles: Vec::new(),
    };

    let mut choices = vec![
        choice("1111", "Zulu", "ReadOnly"),
        choice("2222", "Alpha", "Admin"),
        choice("1111", "Zulu", "Admin"),
    ];

    sort_choices(&mut choices, &identity);

    assert_eq!(choices[0].account_id, "2222");
    assert_eq!(choices[0].role_name, "Admin");
    assert_eq!(choices[1].role_name, "Admin");
    assert_eq!(choices[2].role_name, "ReadOnly");
}

#[test]
fn sort_ignores_case_of_names() {
    let identity = SsoIdentity {
        name: "x".into(),
        start_url: "https://x.awsapps.com/start".into(),
        sso_region: "us-east-1".into(),
        accounts: Vec::new(),
        ignore_roles: Vec::new(),
    };
    let mut choices = vec![choice("1", "beta", "Admin"), choice("2", "Alpha", "Admin")];
    sort_choices(&mut choices, &identity);
    assert_eq!(choices[0].account_name, "Alpha");
    assert_eq!(choices[1].account_name, "beta");
}

#[test]
fn builds_console_url() {
    let url = console_url("https://acme.awsapps.com/start/", "123456789012", "Read Only");
    assert_eq!(
        url,
        "https://acme.awsapps.com/start/#/console?account_id=123456789012&role_name=Read%20Only"
    );
}

#[test]
fn filters_ignored_roles_accounts_and_applies_alias() {
    let identity = SsoIdentity {
        name: "acme".into(),
        start_url: "https://acme.awsapps.com/start".into(),
        sso_region: "us-east-1".into(),
        accounts: vec![
            AccountRule {
                account_id: "1111".into(),
                alias: Some("Prod".into()),
                ignored: false,
                ignored_roles: vec!["Billing".into()],
                precedence: None,
            },
            AccountRule {
                account_id: "3333".into(),
                alias: None,
                ignored: true,
                ignored_roles: Vec::new(),
                precedence: None,
            },
            AccountRule {
                account_id: "4444".into(),
                alias: Some("   ".into()),
                ignored: false,
                ignored_roles: Vec::new(),
                precedence: None,
            },
        ],
        ignore_roles: vec!["Audit".into()],
    };
    let mut choices = vec![
        choice("1111", "Main", "Admin"),
        choice("1111", "Main", "Billing"),
        choice("2222", "Dev", "Audit"),
        choice("2222", "Dev", "Admin"),
        choice("3333", "Old", "Admin"),
        choice("4444", "Keep", "Admin"),
    ];
    apply_account_filters(&mut choices, &identity);
    assert_eq!(choices.len(), 3);
    assert_eq!(choices[0].account_name, "Prod");
    assert_eq!(choices[0].role_name, "Admin");
    assert_eq!(choices[1].account_id, "2222");
    assert_eq!(choices[2].account_name, "Keep");
}

#[test]
fn equal_keys_keep_input_order() {
    let identity = SsoIdentity {
        name: "x".into(),
        start_url: "https://x.awsapps.com/start".into(),
        sso_region: "us-east-1".into(),
        accounts: Vec::new(),
        ignore_roles: Vec::new(),
    };
    let mut choices = vec![choice("9", "Prod", "Admin"), choice("1", "prod", "admin"), choice("5", "Prod", "Admin")];
    sort_choices(&mut choices, &identity);
    let ids: Vec<&str> = choices.iter().map(|c| c.account_id.as_str()).collect();
    assert_eq!(ids, vec!["9", "1", "5"]);
}
