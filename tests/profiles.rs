use roleman::naming::{profile_name_for, sanitize_component, sso_session_name};
use roleman::selection::guess_account_name;
use roleman::{RoleChoice, SsoIdentity};

#[test]
fn sanitizes_profile_components() {
    assert_eq!(sanitize_component("Acme Cloud/Prod"), "Acme-Cloud-Prod");
}

#[test]
fn omits_role_name_for_single_role_accounts() {
    let choice = RoleChoice {
        account_id: "1234".into(),
        account_name: "Acme Cloud".into(),
        role_name: "ReadOnly".into(),
    };
    assert_eq!(profile_name_for(&choice, true), "Acme-Cloud");
    assert_eq!(profile_name_for(&choice, false), "Acme-Cloud/ReadOnly");
}

#[test]
fn guesses_account_name_from_url() {
    assert_eq!(guess_account_name("https://acme.awsapps.com/start"), "acme");
    assert_eq!(guess_account_name("https://my-org.awsapps.com/"), "my-org");
}

#[test]
fn sanitize_collapses_runs_and_trims_dashes() {
    assert_eq!(sanitize_component("--a  b__c--"), "a-b__c");
    assert_eq!(sanitize_component("///"), "role");
    assert_eq!(sanitize_component(""), "role");
}

#[test]
fn guess_trims_space_and_repeated_scheme() {
    assert_eq!(guess_account_name("  https://https://Big_Co.example.com/x  "), "Big-Co");
    assert_eq!(guess_account_name("http://-dash-.example"), "dash");
}

#[test]
fn session_name_uses_sanitized_identity() {
    let identity = SsoIdentity {
        name: "work stuff".into(),
        start_url: "https://example.awsapps.com/start".into(),
        sso_region: "us-east-1".into(),
        accounts: Vec::new(),
        ignore_roles: Vec::new(),
    };
    assert_eq!(sso_session_name(&identity), "roleman-work-stuff");
}
