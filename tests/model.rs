use roleman::model::format_expiration;
use roleman::roles_cache::format_age;
use roleman::{Account, AwsRoleCredentials, EnvVars, Error, Role, RoleChoice};

#[test]
fn env_vars_export_format() {
    let env = EnvVars {
        access_key_id: "AKIA123".into(),
        secret_access_key: "secret".into(),
        session_token: "token".into(),
        expiration_ms: 1_700_000_000_000,
        region: "us-east-1".into(),
        profile_name: "Acme-Cloud/ReadOnly".into(),
        config_file: Some("/tmp/roleman-aws-config".into()),
    };
    let output = env.to_export_lines();
    assert!(output.contains("AWS_ACCESS_KEY_ID=AKIA123"));
    assert!(output.contains("AWS_SECRET_ACCESS_KEY=secret"));
    assert!(output.contains("AWS_SESSION_TOKEN=token"));
    assert!(output.contains("AWS_CREDENTIAL_EXPIRATION="));
    assert!(output.contains("AWS_DEFAULT_REGION=us-east-1"));
    assert!(output.contains("AWS_REGION=us-east-1"));
    assert!(output.contains("AWS_PROFILE=Acme-Cloud/ReadOnly"));
    assert!(output.contains("AWS_CONFIG_FILE=/tmp/roleman-aws-config"));
}

#[test]
fn format_age_outputs_compact_string() {
    assert_eq!(format_age(5), "5s");
    assert_eq!(format_age(70), "1m 10s");
    assert_eq!(format_age(3_650), "1h 0m");
}

#[test]
fn expiration_is_rfc3339() {
    assert_eq!(format_expiration(1_700_000_000_000), "2023-11-14T22:13:20Z");
    assert_eq!(format_expiration(u64::MAX), u64::MAX.to_string());
}

#[test]
fn export_lines_in_order_without_config_file() {
    let creds = AwsRoleCredentials {
        access_key_id: "A".into(),
        secret_access_key: "S".into(),
        session_token: "T".into(),
        expiration: 0,
    };
    let env = EnvVars::from_role_credentials(&creds, "p", "eu-west-1");
    assert_eq!(
        env.to_export_lines(),
        "export AWS_ACCESS_KEY_ID=A\nexport AWS_SECRET_ACCESS_KEY=S\nexport AWS_SESSION_TOKEN=T\nexport AWS_CREDENTIAL_EXPIRATION=1970-01-01T00:00:00Z\nexport AWS_DEFAULT_REGION=eu-west-1\nexport AWS_REGION=eu-west-1\nexport AWS_PROFILE=p"
    );
}

#[test]
fn role_choice_label() {
    let account = Account { id: "42".into(), name: "Main".into() };
    let role = Role { name: "Admin".into() };
    let c = RoleChoice::new(&account, &role);
    assert_eq!(c.label(), "Main (42) — Admin");
}

#[test]
fn error_messages() {
    assert_eq!(Error::MissingCache.message(), "missing AWS SSO cache for start URL");
    assert_eq!(Error::AwsSdk("boom".into()).message(), "aws sdk error: boom");
    assert_eq!(Error::CacheParse { path: "x".into() }.message(), "failed to parse cache file: x");
}
