use roleman::credentials_cache::{
    credentials_cache_filename, load_cached_credentials, save_cached_credentials, CachedCredentials,
};
use roleman::roles_cache::{
    load_cached_roles, load_cached_roles_with_age, roles_cache_filename, save_cached_roles, CachedRole,
    CachedRoles,
};
use roleman::token_cache::{
    aws_time_to_epoch, is_expired, load_valid_cache, time_until_expiry, token_cache_filename,
    token_file_for, TokenFile,
};
use roleman::{AwsRoleCredentials, CacheEntry, Error, RoleChoice};

fn token_file(url: &str, token: &str, expires_at: &str) -> TokenFile {
    TokenFile {
        start_url: Some(url.into()),
        region: Some("us-east-1".into()),
        access_token: Some(token.into()),
        expires_at: Some(expires_at.into()),
    }
}

const URL: &str = "https://example.awsapps.com/start";
const NOW: u64 = 1_700_000_000;

#[test]
fn parses_expiration() {
    let epoch = aws_time_to_epoch("2099-01-01T00:00:00Z").unwrap();
    assert!(epoch > 0);
}

#[test]
fn token_with_latest_expiry_wins() {
    let files = vec![
        token_file(URL, "older", "2098-01-01T00:00:00Z"),
        token_file(URL, "newer", "2099-01-01T00:00:00Z"),
        token_file(URL, "middle", "2098-06-01T00:00:00Z"),
    ];
    let entry = load_valid_cache(&Vec::new(), &files, URL, NOW).unwrap();
    assert_eq!(entry.access_token, "newer");
}

#[test]
fn expired_only_token_is_missing_cache() {
    let files = vec![token_file(URL, "old", "2020-01-01T00:00:00Z")];
    assert!(matches!(load_valid_cache(&Vec::new(), &files, URL, NOW), Err(Error::MissingCache)));
    let at_now = vec![token_file(URL, "edge", "2023-11-14T22:13:20Z")];
    assert!(matches!(load_valid_cache(&Vec::new(), &at_now, URL, NOW), Err(Error::MissingCache)));
}

#[test]
fn malformed_and_foreign_token_files_are_skipped() {
    let mut missing = token_file(URL, "t", "2099-01-01T00:00:00Z");
    missing.region = None;
    let files = vec![
        missing,
        token_file("https://other.awsapps.com/start", "other", "2099-01-01T00:00:00Z"),
        token_file(URL, "bad-date", "tomorrow"),
    ];
    assert!(matches!(load_valid_cache(&Vec::new(), &files, URL, NOW), Err(Error::MissingCache)));
    assert!(matches!(load_valid_cache(&Vec::new(), &Vec::new(), URL, NOW), Err(Error::MissingCache)));
}

#[test]
fn token_round_trip() {
    let entry = CacheEntry {
        access_token: "tok".into(),
        expires_at: "2099-01-01T00:00:00Z".into(),
        region: "eu-west-1".into(),
    };
    let saved = token_file_for(URL, &entry);
    let loaded = load_valid_cache(&Vec::new(), &vec![saved], URL, NOW).unwrap();
    assert_eq!(loaded.access_token, "tok");
    assert_eq!(loaded.expires_at, "2099-01-01T00:00:00Z");
    assert_eq!(loaded.region, "eu-west-1");
}

#[test]
fn expiry_checks() {
    assert_eq!(is_expired("2099-01-01T00:00:00Z", NOW).unwrap(), false);
    assert_eq!(is_expired("2023-11-14T22:13:20Z", NOW).unwrap(), true);
    assert_eq!(time_until_expiry("2023-11-14T22:14:20Z", NOW).unwrap(), 60);
    assert_eq!(time_until_expiry("2000-01-01T00:00:00Z", NOW).unwrap(), 0);
    assert!(matches!(is_expired("nope", NOW), Err(Error::CacheParse { .. })));
}

#[test]
fn cache_file_names_are_content_addressed() {
    assert_eq!(roles_cache_filename("abc"), "roles-a9993e364706816aba3e25717850c26c9cd0d89d.json");
    assert_eq!(token_cache_filename("abc"), "roleman-a9993e364706816aba3e25717850c26c9cd0d89d.json");
    let name = credentials_cache_filename("a", "b", "", "c");
    assert!(name.starts_with("creds-") && name.ends_with(".json"));
    assert_eq!(name.len(), "creds-".len() + 40 + ".json".len());
}

#[test]
fn credentials_files_differ_per_tuple() {
    let url = "https://example.awsapps.com/start";
    assert_ne!(
        credentials_cache_filename(url, "us-east-1", "123", "4Admin"),
        credentials_cache_filename(url, "us-east-1", "1234", "Admin")
    );
    assert_eq!(
        credentials_cache_filename(url, "us-east-1", "1234", "Admin"),
        credentials_cache_filename(url, "us-east-1", "1234", "Admin")
    );
}

#[test]
fn equal_expiries_pick_the_first_file() {
    let files = vec![
        token_file(URL, "first", "2099-01-01T00:00:00Z"),
        token_file(URL, "second", "2099-01-01T00:00:00Z"),
    ];
    assert_eq!(load_valid_cache(&Vec::new(), &files, URL, NOW).unwrap().access_token, "first");
}

#[test]
fn token_file_records_the_start_url() {
    let entry = CacheEntry { access_token: "t".into(), expires_at: "x".into(), region: "r".into() };
    let file = token_file_for("", &entry);
    assert_eq!(file.start_url.as_deref(), Some(""));
    assert_eq!(file.region.as_deref(), Some("r"));
}

fn roles() -> Vec<RoleChoice> {
    vec![
        RoleChoice { account_id: "1234".into(), account_name: "Main".into(), role_name: "Admin".into() },
        RoleChoice { account_id: "1234".into(), account_name: "Main".into(), role_name: "ReadOnly".into() },
    ]
}

#[test]
fn roles_round_trip() {
    let saved = save_cached_roles(&roles(), NOW);
    let (loaded, age) = load_cached_roles(Some(saved), NOW).unwrap();
    assert_eq!(age, 0);
    assert_eq!(loaded.len(), 2);
    assert_eq!(loaded[1].role_name, "ReadOnly");
    assert_eq!(loaded[0].account_name, "Main");
}

#[test]
fn roles_cache_ttl() {
    let t0 = NOW;
    let saved = save_cached_roles(&roles(), t0);
    assert!(load_cached_roles(Some(saved.clone()), t0 + 23 * 3600 + 59 * 60).is_some());
    assert!(load_cached_roles(Some(saved.clone()), t0 + 24 * 3600 + 60).is_none());
    assert!(load_cached_roles_with_age(Some(saved.clone()), t0 + 23 * 3600 + 59 * 60).is_some());
    let (_, age) = load_cached_roles_with_age(Some(saved), t0 + 24 * 3600 + 60).unwrap();
    assert_eq!(age, 24 * 3600 + 60);
}

#[test]
fn absent_roles_cache_is_none() {
    assert!(load_cached_roles(None, NOW).is_none());
    assert!(load_cached_roles_with_age(None, NOW).is_none());
    let future = CachedRoles {
        fetched_at: NOW + 100,
        roles: vec![CachedRole { account_id: "1".into(), account_name: "a".into(), role_name: "r".into() }],
    };
    let (_, age) = load_cached_roles(Some(future), NOW).unwrap();
    assert_eq!(age, 0);
}

fn creds(expiration: u64) -> AwsRoleCredentials {
    AwsRoleCredentials {
        access_key_id: "AKIA123".into(),
        secret_access_key: "secret".into(),
        session_token: "token".into(),
        expiration,
    }
}

#[test]
fn credentials_safety_margin() {
    let now_ms = 1_700_000_000_000;
    let soon = save_cached_credentials(&creds(now_ms + 59_000));
    assert!(load_cached_credentials(Some(soon), now_ms).is_none());
    let later = save_cached_credentials(&creds(now_ms + 61_000));
    assert!(load_cached_credentials(Some(later), now_ms).is_some());
    let edge = save_cached_credentials(&creds(now_ms + 60_000));
    assert!(load_cached_credentials(Some(edge), now_ms).is_none());
}

#[test]
fn credentials_round_trip() {
    let now_ms = 1_700_000_000_000;
    let saved = save_cached_credentials(&creds(now_ms + 120_000));
    let loaded = load_cached_credentials(Some(saved), now_ms).unwrap();
    assert_eq!(loaded.access_key_id, "AKIA123");
    assert_eq!(loaded.secret_access_key, "secret");
    assert_eq!(loaded.session_token, "token");
    assert_eq!(loaded.expiration, now_ms + 120_000);
    assert!(load_cached_credentials(None, now_ms).is_none());
    let expired = CachedCredentials {
        access_key_id: "a".into(),
        secret_access_key: "b".into(),
        session_token: "c".into(),
        expiration_ms: now_ms - 120_000,
    };
    assert!(load_cached_credentials(Some(expired), now_ms).is_none());
}

#[test]
fn own_token_wins_a_tie_with_the_provider() {
    let provider = vec![token_file(URL, "provider", "2099-01-01T00:00:00Z")];
    let own = vec![token_file(URL, "own", "2099-01-01T00:00:00Z")];
    assert_eq!(load_valid_cache(&provider, &own, URL, NOW).unwrap().access_token, "own");
    let later = vec![token_file(URL, "later", "2099-06-01T00:00:00Z")];
    assert_eq!(load_valid_cache(&later, &own, URL, NOW).unwrap().access_token, "later");
    assert_eq!(load_valid_cache(&provider, &Vec::new(), URL, NOW).unwrap().access_token, "provider");
}
