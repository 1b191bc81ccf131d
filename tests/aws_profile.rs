use roleman::aws_profile::{
    ensure_role_profile, ensure_section_entries, ensure_sso_session, find_section, is_truthy, parse_key_value,
};
use roleman::naming::profile_name_for;
use roleman::{Error, RoleChoice, SsoIdentity};

fn identity() -> SsoIdentity {
    SsoIdentity {
        name: "work".into(),
        start_url: "https://example.awsapps.com/start".into(),
        sso_region: "us-east-1".into(),
        accounts: Vec::new(),
        ignore_roles: Vec::new(),
    }
}

#[test]
fn ensures_role_profile_in_text() {
    let choice = RoleChoice {
        account_id: "1234".into(),
        account_name: "Acme Cloud".into(),
        role_name: "ReadOnly".into(),
    };
    let (session, contents) = ensure_sso_session(&identity(), "").unwrap();
    assert_eq!(session, "roleman-work");
    let profile_name = profile_name_for(&choice, false);
    let contents = ensure_role_profile(&profile_name, &choice, &identity(), "us-east-1", &contents).unwrap();
    assert!(contents.contains("[sso-session roleman-work]"));
    assert!(contents.contains("sso_start_url = https://example.awsapps.com/start"));
    assert!(contents.contains("sso_region = us-east-1"));
    assert!(contents.contains("[profile Acme-Cloud/ReadOnly]"));
    assert!(contents.contains("sso_session = roleman-work"));
    assert!(contents.contains("sso_account_id = 1234"));
    assert!(contents.contains("sso_role_name = ReadOnly"));
    assert!(contents.contains("region = us-east-1"));
    assert!(contents.contains("roleman_managed = true"));
    assert_eq!(
        contents,
        "[sso-session roleman-work]\nsso_start_url = https://example.awsapps.com/start\nsso_region = us-east-1\n\n[profile Acme-Cloud/ReadOnly]\nsso_session = roleman-work\nsso_account_id = 1234\nsso_role_name = ReadOnly\nregion = us-east-1\nroleman_managed = true\n"
    );
}

#[test]
fn updates_managed_section_in_place() {
    let text = "[profile p]\nregion = eu-west-1\nroleman_managed = yes\n[other]\nx = 1\n";
    let entries = vec![("region".to_string(), "us-east-1".to_string()), ("output".to_string(), "json".to_string())];
    let updated = ensure_section_entries(text, "profile p", &entries).unwrap();
    assert_eq!(updated, "[profile p]\nregion = us-east-1\nroleman_managed = yes\noutput = json\n[other]\nx = 1\n");
}

#[test]
fn refuses_foreign_section() {
    let text = "[profile p]\nregion = eu-west-1\n";
    let entries = vec![("region".to_string(), "us-east-1".to_string())];
    match ensure_section_entries(text, "profile p", &entries) {
        Err(Error::Config(m)) => assert_eq!(m, "section profile p already exists and is not managed by roleman"),
        other => panic!("unexpected {:?}", other),
    }
    let marked = "[profile p]\nroleman_managed = false\n";
    assert!(matches!(ensure_section_entries(marked, "profile p", &entries), Err(Error::Config(_))));
    let agreeing = "[profile p]\nregion = us-east-1";
    assert_eq!(ensure_section_entries(agreeing, "profile p", &entries).unwrap(), "[profile p]\nregion = us-east-1\n");
}

#[test]
fn parses_ini_pieces() {
    let kv = parse_key_value("  key =  a = b ").unwrap();
    assert_eq!(kv.0, "key");
    assert_eq!(kv.1, "a = b");
    assert!(parse_key_value("# comment = x").is_none());
    assert!(parse_key_value("; note").is_none());
    assert!(parse_key_value("novalue").is_none());
    assert!(is_truthy(" TRUE "));
    assert!(is_truthy("1"));
    assert!(!is_truthy("no"));
    let lines: Vec<String> = vec!["[a]".into(), "x=1".into(), " [b] ".into(), "[c]".into()];
    assert_eq!(find_section(&lines, "[b]"), (Some(2), Some(3)));
    assert_eq!(find_section(&lines, "[a]"), (Some(0), Some(2)));
    assert_eq!(find_section(&lines, "[z]"), (None, None));
}
