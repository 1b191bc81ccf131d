use roleman::device_auth::{after_response, before_request, is_pending_auth, start_poll, PollAction};
use roleman::refresh::{flatten_choices, next_page, plan_token, refetch_delay, resolve_refresh, sort_accounts, TokenPlan};
use roleman::retry::{backoff_ms, format_sdk_error, is_throttle_error, retry_action, RetryAction};
use roleman::{Account, AwsCreateToken, AwsStartDeviceAuthorization, CacheEntry, Error, Role, RoleChoice};

fn run_with_retries(max_attempts: u32, code: Option<&str>, message: &str) -> (u32, Vec<u64>) {
    let mut attempts = 0;
    let mut delays = Vec::new();
    let mut attempt = 1;
    loop {
        attempts += 1;
        match retry_action(attempt, max_attempts, code, message) {
            RetryAction::GiveUp => return (attempts, delays),
            RetryAction::Backoff(ms) => {
                delays.push(ms);
                attempt += 1;
            }
        }
    }
}

#[test]
fn throttled_call_backs_off_then_fails() {
    let (attempts, delays) = run_with_retries(5, Some("ThrottlingException"), "slow down");
    assert_eq!(attempts, 5);
    assert_eq!(delays, vec![500, 1000, 2000, 4000]);
    let (attempts, delays) = run_with_retries(5, None, "Rate exceeded for operation");
    assert_eq!(attempts, 5);
    assert_eq!(delays.len(), 4);
}

#[test]
fn non_throttling_error_fails_at_once() {
    let (attempts, delays) = run_with_retries(5, Some("UnauthorizedException"), "denied");
    assert_eq!(attempts, 1);
    assert!(delays.is_empty());
}

#[test]
fn throttle_classification_and_backoff() {
    assert!(is_throttle_error(Some("TooManyRequestsException"), ""));
    assert!(is_throttle_error(None, "error: TooManyRequests"));
    assert!(!is_throttle_error(Some("AccessDenied"), "nope"));
    assert!(!is_throttle_error(Some("AccessDenied"), "Throttling"));
    assert!(is_throttle_error(None, "Throttling"));
    assert_eq!(backoff_ms(1), 500);
    assert_eq!(backoff_ms(6), 16000);
    assert_eq!(backoff_ms(200), u64::MAX);
}

#[test]
fn sdk_error_text_joins_metadata() {
    assert_eq!(
        format_sdk_error("service error", Some("Throttling"), Some("Rate exceeded"), Some("abc")),
        "service error | code=Throttling | message=Rate exceeded | request_id=abc"
    );
    assert_eq!(format_sdk_error("boom", None, None, None), "boom");
}

fn auth(expires_in: u64, interval: u64) -> AwsStartDeviceAuthorization {
    AwsStartDeviceAuthorization {
        device_code: "dev".into(),
        user_code: "USER-1".into(),
        verification_uri_complete: "https://device.example/?code=USER-1".into(),
        expires_in,
        interval,
    }
}

#[test]
fn device_flow_expires_after_deadline() {
    let state = start_poll(&auth(600, 5), 1_000);
    assert_eq!(state.deadline, 1_600);
    assert!(matches!(before_request(&state, 1_600), PollAction::RequestToken));
    let pending = Err(Error::AwsSdk("AuthorizationPendingException: wait".into()));
    assert!(matches!(after_response(&state, pending, "us-east-1", 1_600), PollAction::Sleep(5)));
    assert!(matches!(before_request(&state, 1_601), PollAction::Fail(Error::ExpiredCache)));
    assert!(matches!(before_request(&state, 9_999), PollAction::Fail(Error::ExpiredCache)));
}

#[test]
fn device_flow_waits_at_least_a_second_and_fails_fast() {
    let state = start_poll(&auth(600, 0), 0);
    assert_eq!(state.wait_secs, 1);
    let slow = Err(Error::AwsSdk("SlowDownException".into()));
    assert!(matches!(after_response(&state, slow, "us-east-1", 10), PollAction::Sleep(1)));
    let denied = Err(Error::AwsSdk("AccessDeniedException".into()));
    assert!(matches!(after_response(&state, denied, "us-east-1", 10), PollAction::Fail(Error::AwsSdk(_))));
    assert!(!is_pending_auth(&Error::MissingCache));
    let invalid_grant = Err(Error::AwsSdk("InvalidGrantException".into()));
    assert!(matches!(after_response(&state, invalid_grant, "us-east-1", 10), PollAction::Fail(Error::AwsSdk(_))));
}

#[test]
fn device_flow_finishes_with_absolute_expiry() {
    let state = start_poll(&auth(600, 5), 1_700_000_000);
    let token = Ok(AwsCreateToken { access_token: "tok".into(), expires_in: 60 });
    match after_response(&state, token, "eu-west-1", 1_700_000_000) {
        PollAction::Finish(entry) => {
            assert_eq!(entry.access_token, "tok");
            assert_eq!(entry.region, "eu-west-1");
            assert_eq!(entry.expires_at, "2023-11-14T22:14:20Z");
        }
        other => panic!("unexpected {:?}", other),
    }
}

#[test]
fn refresh_falls_back_to_stale_cache() {
    let cached = vec![RoleChoice { account_id: "1".into(), account_name: "a".into(), role_name: "r".into() }];
    let r = resolve_refresh(Err(Error::AwsSdk("down".into())), Some((cached, 90_000))).unwrap();
    assert_eq!(r.0.len(), 1);
    assert_eq!(r.1, Some(90_000));
    assert!(matches!(resolve_refresh(Err(Error::AwsSdk("down".into())), None), Err(Error::AwsSdk(_))));
    let fresh = resolve_refresh(Ok(Vec::new()), None).unwrap();
    assert_eq!(fresh.1, None);
}

#[test]
fn flattens_and_orders_accounts() {
    let mut accounts = vec![
        Account { id: "2".into(), name: "beta".into() },
        Account { id: "1".into(), name: "Alpha".into() },
    ];
    sort_accounts(&mut accounts);
    assert_eq!(accounts[0].id, "1");
    let groups = vec![
        (accounts[0].clone(), vec![Role { name: "Admin".into() }, Role { name: "Dev".into() }]),
        (accounts[1].clone(), vec![Role { name: "Read".into() }]),
    ];
    let flat = flatten_choices(&groups);
    assert_eq!(flat.len(), 3);
    assert_eq!(flat[1].role_name, "Dev");
    assert_eq!(flat[2].account_name, "beta");
}

#[test]
fn token_plan_prefers_cache() {
    let entry = CacheEntry { access_token: "t".into(), expires_at: "x".into(), region: "r".into() };
    assert!(matches!(plan_token(false, Ok(entry.clone()), None), Ok(TokenPlan::UseCached(_))));
    assert!(matches!(plan_token(true, Ok(entry), Some("us-east-1")), Ok(TokenPlan::Authorize(_))));
    assert!(matches!(plan_token(false, Err(Error::MissingCache), None), Err(Error::MissingRegion)));
}

#[test]
fn paging_and_refetch_decisions() {
    assert_eq!(next_page(Some("abc")).as_deref(), Some("abc"));
    assert_eq!(next_page(Some("")), None);
    assert_eq!(next_page(None), None);
    assert_eq!(refetch_delay(0, Some(30)), Some(30));
    assert_eq!(refetch_delay(2, Some(30)), None);
    assert_eq!(refetch_delay(0, None), None);
}
