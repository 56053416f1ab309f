use failsafe::accounts::{
    account_summary, bearer_token, change_password, check_mfa_request, check_refresh_request,
    check_registration, login, logout_token, new_account, recovery_code_result,
    require_existing_account, second_factor, totp_disable_check, totp_disabled, totp_enable,
    totp_setup, AccountRecord, LoginOutcome, SecondFactor,
};
use failsafe::auth::{hash_password, verify_password, JwtService};
use failsafe::config::{
    asset_path, default_database_url, encryption_key_from, listen_text, parse_port,
    sqlite_file_path, EnvValue, ListenConfig, ListenEnv, ListenTarget, PortFault,
};
use failsafe::devices::{
    delete_device, device_info, heartbeat_device, list_devices, load_active_device, patch_device,
    register_device, upsert_device, DevicePatchRequest, DeviceRecord, DeviceUpsertRequest,
    RegisterDeviceMode,
};
use failsafe::error::{AuthError, ServerError};
use failsafe::ids::{AccountId, DeviceId, FeatureId};
use failsafe::pairing::{
    check_redeem_code, claim_pairing_code, generate_code, next_pairing_code, normalize_code,
    CODE_LEN,
};
use failsafe::presence::{
    check_pairing_record, check_refresh_record, is_online, is_online_at, issue_refresh_token,
    mark_pairing_used, new_pairing_record, revoke_refresh_record, revokes_on_logout,
    MICROS_PER_SEC,
};
use failsafe::rate_limit::RateLimiter;
use failsafe::secrets::{
    decrypt_secret, encrypt_secret, generate_recovery_codes, hash_recovery_code, hash_token,
};
use failsafe::totp::{current_totp_code, generate_totp_secret, verify_totp};
use failsafe::virtual_ip::{ensure_virtual_ip, parse_ipv4};

fn now_micros() -> i64 {
    chrono::Utc::now().timestamp_micros()
}

const KEY: &str = "integration-test-secret";
const BASE: (u8, u8, u8, u8) = (100, 64, 7, 20);

fn known() -> Vec<String> {
    vec!["clipboard".to_owned(), "shell".to_owned(), "files".to_owned()]
}

fn laptop(device_id: DeviceId, key: &str) -> DeviceUpsertRequest {
    DeviceUpsertRequest {
        device_id,
        name: "laptop".to_owned(),
        iroh_public_key: key.to_owned(),
        enabled_features: vec![FeatureId::from_static("clipboard")],
    }
}

fn registered(account: AccountId, device_id: DeviceId, now: i64) -> DeviceRecord {
    register_device(
        account,
        laptop(device_id, "abc123"),
        RegisterDeviceMode::Upsert,
        None,
        &known(),
        BASE,
        &vec![],
        now,
    )
    .unwrap()
}

fn feature_names(fs: &[FeatureId]) -> Vec<String> {
    fs.iter().map(|f| f.as_str().to_owned()).collect()
}

fn account_with_password(password: &str) -> AccountRecord {
    new_account("user@example.com".to_owned(), password, false, 0).unwrap()
}

#[test]
fn normalize_code_accepts_case_insensitive_input() {
    assert_eq!(normalize_code("a3k9z1").as_deref(), Some("A3K9Z1"));
    assert_eq!(normalize_code(" A3K9Z1 ").as_deref(), Some("A3K9Z1"));
    assert!(normalize_code("abc").is_none());
    assert!(normalize_code("A3K9Z!").is_none());
}

#[test]
fn generate_code_is_six_uppercase_alphanumeric() {
    let code = generate_code();
    assert_eq!(code.len(), CODE_LEN);
    assert!(code
        .chars()
        .all(|ch| ch.is_ascii_uppercase() || ch.is_ascii_digit()));
}

#[test]
fn password_hash_roundtrip() {
    let hash = hash_password("hunter2").unwrap();
    verify_password("hunter2", &hash).unwrap();
    assert!(verify_password("wrong", &hash).is_err());
}

#[test]
fn jwt_issue_and_validate() {
    let service = JwtService::new("test-secret");
    let account_id = AccountId::new();
    let token = service.issue(account_id).unwrap();
    assert_eq!(service.validate(&token).unwrap(), account_id);
}

#[test]
fn jwt_tokens_are_not_interchangeable() {
    let service = JwtService::new("test-secret");
    let account_id = AccountId::new();
    let mfa = service.issue_mfa_pending(account_id).unwrap();
    assert!(matches!(
        service.validate(&mfa),
        Err(ServerError::Auth(AuthError::InvalidToken))
    ));
    assert_eq!(service.validate_mfa_pending(&mfa).unwrap(), account_id);
    let token = service.issue(account_id).unwrap();
    assert!(service.validate_mfa_pending(&token).is_err());
    let other = JwtService::new("other-secret");
    assert!(other.validate(&token).is_err());
}

#[test]
fn encrypt_decrypt_roundtrip() {
    let secret = generate_totp_secret();
    let encrypted = encrypt_secret("test-key", &secret).unwrap();
    let decrypted = decrypt_secret("test-key", &encrypted).unwrap();
    assert_eq!(secret, decrypted);
}

#[test]
fn decrypt_refuses_bad_stored_secrets() {
    let encrypted = encrypt_secret("test-key", "JBSWY3DPEHPK3PXP").unwrap();
    assert!(matches!(
        decrypt_secret("other-key", &encrypted),
        Err(ServerError::Auth(AuthError::InvalidCredentials))
    ));
    match decrypt_secret("test-key", "no-colon-here") {
        Err(ServerError::Internal(m)) => assert_eq!(m, "invalid encrypted secret format"),
        other => panic!("unexpected {other:?}"),
    }
    match decrypt_secret("test-key", "!!!:AAAA") {
        Err(ServerError::Internal(m)) => assert_eq!(m, "invalid encrypted secret nonce"),
        other => panic!("unexpected {other:?}"),
    }
}

#[test]
fn totp_verify_current_code() {
    let secret = generate_totp_secret();
    let email = "user@example.com";
    let code = current_totp_code(email, &secret).unwrap();
    verify_totp(email, &secret, &code).unwrap();
    assert!(verify_totp(email, &secret, "000000").is_err());
}

#[test]
fn recovery_codes_hash_their_normal_form() {
    let codes = generate_recovery_codes();
    assert_eq!(codes.len(), 10);
    for code in &codes {
        assert_eq!(code.len(), 8);
        assert!(code
            .chars()
            .all(|c| "ABCDEFGHJKLMNPQRSTUVWXYZ23456789".contains(c)));
        let lower = format!("  {}  ", code.to_lowercase());
        assert_eq!(hash_recovery_code(&lower), hash_recovery_code(code));
    }
    assert_eq!(
        hash_token("abc"),
        "ba7816bf8f01cfea414140de5dae2223b00361a396177a9cb410ff61f20015ad"
    );
}

#[test]
fn resolves_explicit_host_and_port() {
    let env = ListenEnv {
        listen: EnvValue::Absent,
        host: EnvValue::Absent,
        port: EnvValue::Absent,
    };
    let addr = ListenConfig {
        listen: None,
        host: Some("0.0.0.0".to_owned()),
        port: Some(9000),
    }
    .resolve(&env)
    .unwrap();
    match addr {
        ListenTarget::HostPort(host, port) => assert_eq!(listen_text(&host, port), "0.0.0.0:9000"),
        other => panic!("unexpected {other:?}"),
    }
}

#[test]
fn listen_flag_takes_precedence() {
    let env = ListenEnv {
        listen: EnvValue::Absent,
        host: EnvValue::Absent,
        port: EnvValue::Absent,
    };
    let addr = ListenConfig {
        listen: Some("192.168.1.1:3000".to_owned()),
        host: Some("0.0.0.0".to_owned()),
        port: Some(9000),
    }
    .resolve(&env)
    .unwrap();
    match addr {
        ListenTarget::Address(a) => assert_eq!(a, "192.168.1.1:3000"),
        other => panic!("unexpected {other:?}"),
    }
}

#[test]
fn host_defaults_port_when_only_host_set() {
    let env = ListenEnv {
        listen: EnvValue::Absent,
        host: EnvValue::Absent,
        port: EnvValue::Absent,
    };
    let addr = ListenConfig {
        listen: None,
        host: Some("0.0.0.0".to_owned()),
        port: None,
    }
    .resolve(&env)
    .unwrap();
    match addr {
        ListenTarget::HostPort(host, port) => assert_eq!(listen_text(&host, port), "0.0.0.0:8080"),
        other => panic!("unexpected {other:?}"),
    }
}

#[test]
fn environment_completes_the_listen_address() {
    let cfg = ListenConfig {
        listen: None,
        host: None,
        port: None,
    };
    let env = ListenEnv {
        listen: EnvValue::Absent,
        host: EnvValue::Text("10.0.0.2".to_owned()),
        port: EnvValue::Text("+7000".to_owned()),
    };
    match cfg.resolve(&env).unwrap() {
        ListenTarget::HostPort(host, port) => assert_eq!(listen_text(&host, port), "10.0.0.2:7000"),
        other => panic!("unexpected {other:?}"),
    }
    let env = ListenEnv {
        listen: EnvValue::Text("[::1]:9999".to_owned()),
        host: EnvValue::Absent,
        port: EnvValue::Absent,
    };
    assert!(matches!(cfg.resolve(&env).unwrap(), ListenTarget::EnvAddress(a) if a == "[::1]:9999"));
    let env = ListenEnv {
        listen: EnvValue::Absent,
        host: EnvValue::Absent,
        port: EnvValue::Text("99999".to_owned()),
    };
    assert_eq!(
        cfg.resolve(&env).unwrap_err(),
        "invalid FAILSAFE_LISTEN_PORT: number too large to fit in target type"
    );
    let env = ListenEnv {
        listen: EnvValue::Absent,
        host: EnvValue::Absent,
        port: EnvValue::NotUnicode,
    };
    assert_eq!(
        cfg.resolve(&env).unwrap_err(),
        "invalid FAILSAFE_LISTEN_PORT: not unicode"
    );
    let with_host = ListenConfig {
        listen: None,
        host: Some("h".to_owned()),
        port: None,
    };
    match with_host.resolve(&env).unwrap() {
        ListenTarget::HostPort(host, port) => assert_eq!(listen_text(&host, port), "h:8080"),
        other => panic!("unexpected {other:?}"),
    }
}

#[test]
fn ports_read_like_u16_from_str() {
    for text in ["0", "8080", "+80", "65535", "007"] {
        assert_eq!(parse_port(text).ok(), text.parse::<u16>().ok());
    }
    assert!(matches!(parse_port(""), Err(PortFault::Empty)));
    assert!(matches!(parse_port("+"), Err(PortFault::InvalidDigit)));
    assert!(matches!(parse_port("-1"), Err(PortFault::InvalidDigit)));
    assert!(matches!(parse_port("80a"), Err(PortFault::InvalidDigit)));
    assert!(matches!(parse_port("65536"), Err(PortFault::Overflow)));
    assert!(matches!(parse_port("700000x"), Err(PortFault::Overflow)));
}

#[test]
fn database_and_asset_paths() {
    assert_eq!(
        default_database_url(None, Some("/data/failsafe/failsafe.db".to_owned())).as_deref(),
        Some("sqlite:///data/failsafe/failsafe.db?mode=rwc")
    );
    assert_eq!(
        default_database_url(Some("postgres://db".to_owned()), None).as_deref(),
        Some("postgres://db")
    );
    assert_eq!(default_database_url(None, None), None);
    assert_eq!(
        sqlite_file_path("sqlite:///data/failsafe.db?mode=rwc").as_deref(),
        Some("/data/failsafe.db")
    );
    assert_eq!(sqlite_file_path("sqlite://x.db").as_deref(), Some("x.db"));
    assert_eq!(sqlite_file_path("postgres://db"), None);
    assert_eq!(
        encryption_key_from(None, "jwt").unwrap_err(),
        "FAILSAFE_ENCRYPTION_KEY environment variable is required"
    );
    assert_eq!(
        encryption_key_from(Some("jwt".to_owned()), "jwt").unwrap_err(),
        "FAILSAFE_ENCRYPTION_KEY must differ from FAILSAFE_JWT_SECRET"
    );
    assert_eq!(encryption_key_from(Some("enc".to_owned()), "jwt").unwrap(), "enc");
}

#[test]
fn serves_embedded_frontend() {
    assert_eq!(asset_path("/"), "index.html");
    assert_eq!(asset_path(""), "index.html");
    assert_eq!(asset_path("//assets/app.js"), "assets/app.js");
    assert_eq!(asset_path("/devices"), "devices");
}

#[test]
fn recent_last_seen_is_online() {
    assert!(is_online(Some(now_micros())));
    assert!(is_online(Some(now_micros() - 60 * MICROS_PER_SEC)));
}

#[test]
fn stale_last_seen_is_offline() {
    assert!(!is_online(None));
    assert!(!is_online(Some(now_micros() - 91 * MICROS_PER_SEC)));
}

#[test]
fn online_threshold_is_ninety_seconds() {
    let now = 1_000_000_000_000;
    assert!(is_online_at(Some(now - 90 * MICROS_PER_SEC), now));
    assert!(!is_online_at(Some(now - 90 * MICROS_PER_SEC - 1), now));
    assert!(!is_online_at(None, now));
}

#[test]
fn error_responses() {
    let cases = vec![
        (ServerError::Unauthorized, 401, "unauthorized"),
        (ServerError::Auth(AuthError::InvalidCredentials), 401, "invalid credentials"),
        (ServerError::Auth(AuthError::InvalidToken), 401, "invalid token"),
        (ServerError::Conflict("email already registered".to_owned()), 409, "email already registered"),
        (ServerError::BadRequest("code is required".to_owned()), 400, "code is required"),
        (ServerError::NotFound, 404, "not found"),
        (ServerError::Forbidden, 403, "forbidden"),
        (ServerError::ForbiddenMessage("device removed".to_owned()), 403, "device removed"),
        (ServerError::Database("disk full".to_owned()), 500, "internal server error"),
        (ServerError::Auth(AuthError::HashingFailed), 500, "internal server error"),
        (ServerError::Internal("boom".to_owned()), 500, "internal server error"),
    ];
    for (error, status, message) in cases {
        let (s, m) = error.status_and_message();
        assert_eq!(s, status);
        assert_eq!(m, message);
    }
    assert_eq!(ServerError::Conflict("x".to_owned()).message(), "conflict: x");
    assert_eq!(ServerError::Auth(AuthError::Jwt("bad".to_owned())).message(), "jwt error: bad");
}

#[test]
fn login_rate_limit() {
    let mut limiter = RateLimiter::new(2, std::time::Duration::from_secs(60));
    assert!(limiter.check_route("/api/v1/auth/login").is_none());
    assert!(limiter.check_route("/api/v1/auth/login").is_none());
    let (status, message) = limiter.check_route("/api/v1/auth/login").unwrap();
    assert_eq!(status, 429);
    assert_eq!(message, "rate limit exceeded");
    assert!(limiter.check_route("/api/v1/auth/register").is_none());
}

#[test]
fn rate_limit_window_slides() {
    let mut limiter = RateLimiter::new(1, std::time::Duration::from_nanos(100));
    assert!(limiter.allow_at("k", 0));
    assert!(!limiter.allow_at("k", 99));
    assert!(limiter.allow_at("k", 100));
    assert!(limiter.allow_at("other", 100));
}

#[test]
fn virtual_ip_is_kept_or_allocated() {
    assert_eq!(ensure_virtual_ip(Some("10.1.2.3".to_owned()), BASE, &vec![]).unwrap(), "10.1.2.3");
    let first = ensure_virtual_ip(Some("not-an-ip".to_owned()), BASE, &vec![]).unwrap();
    assert_eq!(first, "100.64.7.20");
    let second = ensure_virtual_ip(None, BASE, &vec![first.clone()]).unwrap();
    assert_ne!(second, first);
    assert_eq!(second, "100.64.7.23");
    assert_eq!(parse_ipv4(&second), Some((100, 64, 7, 23)));
    assert_eq!(parse_ipv4("256.1.1.1"), None);
}

#[test]
fn register_rejects_missing_fields_and_unknown_features() {
    let account = AccountId::new();
    let device_id = DeviceId::new();
    let mut request = laptop(device_id, "  ");
    match register_device(account, request.clone(), RegisterDeviceMode::Upsert, None, &known(), BASE, &vec![], 1) {
        Err(ServerError::BadRequest(m)) => assert_eq!(m, "name and iroh_public_key are required"),
        other => panic!("unexpected {other:?}"),
    }
    request.iroh_public_key = "abc123".to_owned();
    request.enabled_features = vec![FeatureId::from_static("clipboard"), FeatureId::from_static("teleport")];
    match register_device(account, request, RegisterDeviceMode::Upsert, None, &known(), BASE, &vec![], 1) {
        Err(ServerError::BadRequest(m)) => assert_eq!(m, "unknown feature `teleport`"),
        other => panic!("unexpected {other:?}"),
    }
}

#[test]
fn tests_register_login_and_manage_devices() {
    let email = check_registration("  User@Example.com ", "hunter22").unwrap();
    let account = new_account(email, "hunter22", false, 1).unwrap();
    assert_eq!(account.email, "user@example.com");
    let jwt = JwtService::new(KEY);
    let outcome = login(&jwt, Some(account.clone()), "hunter22").unwrap();
    assert!(matches!(outcome, LoginOutcome::Authenticated(id) if id == account.id));

    let device_id = DeviceId::new();
    let now = now_micros();
    let record = upsert_device(device_id, account.id, laptop(device_id, "abc123"), None, &known(), BASE, &vec![], now).unwrap();
    let devices = list_devices(&vec![record], account.id, now);
    assert_eq!(devices.len(), 1);
    assert_eq!(devices[0].device_id, device_id);
    assert_eq!(devices[0].name, "laptop");
    assert_eq!(devices[0].iroh_public_key, "abc123");
    assert_eq!(feature_names(&devices[0].enabled_features), vec!["clipboard"]);
    assert!(devices[0].virtual_ip.is_some());
    assert!(devices[0].online);

    match upsert_device(DeviceId::new(), account.id, laptop(device_id, "abc123"), None, &known(), BASE, &vec![], now) {
        Err(ServerError::BadRequest(m)) => assert_eq!(m, "device_id in path and body must match"),
        other => panic!("unexpected {other:?}"),
    }
}

#[test]
fn patch_rename_and_features() {
    let account = AccountId::new();
    let device_id = DeviceId::new();
    let record = registered(account, device_id, 1);
    let patched = patch_device(
        account,
        DevicePatchRequest {
            name: Some("work-laptop".to_owned()),
            enabled_features: Some(vec![]),
        },
        Some(record),
        &known(),
    )
    .unwrap();
    assert_eq!(patched.name, "work-laptop");
    assert!(patched.enabled_features.is_empty());
}

#[test]
fn patch_refusals() {
    let account = AccountId::new();
    let record = registered(account, DeviceId::new(), 1);
    match patch_device(account, DevicePatchRequest { name: None, enabled_features: None }, Some(record.clone()), &known()) {
        Err(ServerError::BadRequest(m)) => assert_eq!(m, "at least one of name or enabled_features is required"),
        other => panic!("unexpected {other:?}"),
    }
    match patch_device(account, DevicePatchRequest { name: Some(" ".to_owned()), enabled_features: None }, Some(record.clone()), &known()) {
        Err(ServerError::BadRequest(m)) => assert_eq!(m, "name cannot be empty"),
        other => panic!("unexpected {other:?}"),
    }
    let other = AccountId::new();
    assert!(matches!(
        patch_device(other, DevicePatchRequest { name: Some("x".to_owned()), enabled_features: None }, Some(record.clone()), &known()),
        Err(ServerError::Forbidden)
    ));
    assert!(matches!(
        patch_device(account, DevicePatchRequest { name: Some("x".to_owned()), enabled_features: None }, None, &known()),
        Err(ServerError::NotFound)
    ));
    assert!(matches!(load_active_device(other, Some(record)), Err(ServerError::Forbidden)));
}

#[test]
fn delete_hides_device_and_blocks_upsert() {
    let account = AccountId::new();
    let device_id = DeviceId::new();
    let record = registered(account, device_id, 1);
    let deleted = delete_device(account, Some(record), 2).unwrap();
    assert_eq!(deleted.deleted_at, Some(2));
    let devices = list_devices(&vec![deleted.clone()], account, 3);
    assert!(devices.is_empty());
    match upsert_device(device_id, account, laptop(device_id, "abc123"), Some(deleted), &known(), BASE, &vec![], 4) {
        Err(ServerError::ForbiddenMessage(m)) => assert_eq!(m, "device removed"),
        other => panic!("unexpected {other:?}"),
    }
}

#[test]
fn deleted_device_can_rejoin_via_pairing_redeem() {
    let account = AccountId::new();
    let device_id = DeviceId::new();
    let record = registered(account, device_id, 1);
    let deleted = delete_device(account, Some(record), 2).unwrap();
    let restored = register_device(
        account,
        laptop(device_id, "restored-key"),
        RegisterDeviceMode::Pairing,
        Some(deleted),
        &known(),
        BASE,
        &vec![],
        3,
    )
    .unwrap();
    assert!(restored.deleted_at.is_none());
    assert_eq!(restored.iroh_public_key, "restored-key");
    let devices = list_devices(&vec![restored.clone()], account, 3);
    assert_eq!(devices.len(), 1);
    assert_eq!(devices[0].device_id, device_id);
    assert_eq!(devices[0].iroh_public_key, "restored-key");
    let again = upsert_device(device_id, account, laptop(device_id, "restored-key"), Some(restored), &known(), BASE, &vec![], 4).unwrap();
    let beat = heartbeat_device(account, Some(again), 5).unwrap();
    assert_eq!(beat.last_seen, Some(5));
}

#[test]
fn redeem_without_device_does_not_restore_deleted_device() {
    let account = AccountId::new();
    let device_id = DeviceId::new();
    let record = registered(account, device_id, 1);
    let deleted = delete_device(account, Some(record), 2).unwrap();
    let pairing = new_pairing_record(account.0, 2).unwrap();
    let pairing = check_pairing_record(Some(pairing), 3).unwrap();
    let _used = mark_pairing_used(pairing, 3);
    claim_pairing_code(1).unwrap();
    assert!(matches!(
        upsert_device(device_id, account, laptop(device_id, "abc123"), Some(deleted), &known(), BASE, &vec![], 4),
        Err(ServerError::ForbiddenMessage(_))
    ));
}

#[test]
fn upsert_update_ignores_features_on_existing_device() {
    let account = AccountId::new();
    let device_id = DeviceId::new();
    let record = registered(account, device_id, 1);
    let patched = patch_device(
        account,
        DevicePatchRequest { name: None, enabled_features: Some(vec![FeatureId::from_static("shell")]) },
        Some(record),
        &known(),
    )
    .unwrap();
    let mut request = laptop(device_id, "updated-key");
    request.enabled_features = vec![FeatureId::from_static("clipboard"), FeatureId::from_static("files")];
    let updated = upsert_device(device_id, account, request, Some(patched), &known(), BASE, &vec![], 2).unwrap();
    assert_eq!(updated.iroh_public_key, "updated-key");
    assert_eq!(feature_names(&updated.enabled_features), vec!["shell"]);
}

#[test]
fn heartbeat_does_not_revert_patched_name() {
    let account = AccountId::new();
    let device_id = DeviceId::new();
    let record = registered(account, device_id, 1);
    let patched = patch_device(
        account,
        DevicePatchRequest { name: Some("renamed".to_owned()), enabled_features: None },
        Some(record),
        &known(),
    )
    .unwrap();
    let updated = upsert_device(device_id, account, laptop(device_id, "updated-key"), Some(patched), &known(), BASE, &vec![], 2).unwrap();
    let beat = heartbeat_device(account, Some(updated), 3).unwrap();
    assert_eq!(beat.name, "renamed");
    assert_eq!(beat.iroh_public_key, "updated-key");
}

#[test]
fn heartbeat_updates_online_status() {
    let account = AccountId::new();
    let now = now_micros();
    let record = registered(account, DeviceId::new(), now - 300 * MICROS_PER_SEC);
    assert!(!device_info(&record, now).online);
    let beat = heartbeat_device(account, Some(record), now).unwrap();
    assert!(device_info(&beat, now).online);
}

#[test]
fn stale_device_is_offline() {
    let account = AccountId::new();
    let now = now_micros();
    let record = registered(account, DeviceId::new(), now - 120 * MICROS_PER_SEC);
    let devices = list_devices(&vec![record], account, now);
    assert_eq!(devices.len(), 1);
    assert!(!devices[0].online);
}

#[test]
fn heartbeat_on_deleted_device_returns_not_found() {
    let account = AccountId::new();
    let record = registered(account, DeviceId::new(), 1);
    let deleted = delete_device(account, Some(record), 2).unwrap();
    assert!(matches!(heartbeat_device(account, Some(deleted.clone()), 3), Err(ServerError::NotFound)));
    assert!(matches!(delete_device(account, Some(deleted), 3), Err(ServerError::NotFound)));
}

#[test]
fn tests_pairing_code_can_be_redeemed_once() {
    let account = AccountId::new();
    let code = next_pairing_code(0).unwrap();
    assert_eq!(code.len(), 6);
    assert_eq!(check_redeem_code(&code.to_lowercase()).unwrap(), code);
    let record = new_pairing_record(account.0, 0).unwrap();
    let ok = check_pairing_record(Some(record), 1).unwrap();
    assert_eq!(ok.account_id, account.0);
    claim_pairing_code(1).unwrap();
    let used = mark_pairing_used(ok, 1);
    match check_pairing_record(Some(used), 2) {
        Err(ServerError::BadRequest(m)) => assert_eq!(m, "pairing code already used"),
        other => panic!("unexpected {other:?}"),
    }
    match claim_pairing_code(0) {
        Err(ServerError::BadRequest(m)) => assert_eq!(m, "pairing code already used"),
        other => panic!("unexpected {other:?}"),
    }
}

#[test]
fn pairing_refusals() {
    match check_redeem_code("abc") {
        Err(ServerError::BadRequest(m)) => assert_eq!(m, "pairing code must be 8 uppercase alphanumeric characters"),
        other => panic!("unexpected {other:?}"),
    }
    match check_pairing_record(None, 0) {
        Err(ServerError::BadRequest(m)) => assert_eq!(m, "invalid pairing code"),
        other => panic!("unexpected {other:?}"),
    }
    let record = new_pairing_record(1, 0).unwrap();
    assert_eq!(record.expires_at, 600 * MICROS_PER_SEC);
    match check_pairing_record(Some(record), 600 * MICROS_PER_SEC + 1) {
        Err(ServerError::BadRequest(m)) => assert_eq!(m, "pairing code expired"),
        other => panic!("unexpected {other:?}"),
    }
    match next_pairing_code(10) {
        Err(ServerError::Internal(m)) => assert_eq!(m, "failed to generate unique pairing code"),
        other => panic!("unexpected {other:?}"),
    }
}

#[test]
fn refresh_rotates_tokens() {
    let account = AccountId::new();
    let issued = issue_refresh_token(account.0, 0).unwrap();
    assert_eq!(issued.token_hash, hash_token(&issued.raw));
    let raw = check_refresh_request(&format!(" {} ", issued.raw)).unwrap();
    assert_eq!(raw, issued.raw);
    let valid = check_refresh_record(Some(issued.record), true, 10).unwrap();
    let revoked = revoke_refresh_record(valid, 10);
    assert!(matches!(check_refresh_record(Some(revoked), true, 11), Err(ServerError::Unauthorized)));
    let next = issue_refresh_token(account.0, 10).unwrap();
    assert_ne!(next.raw, issued.raw);
    assert!(check_refresh_record(Some(next.record), true, 11).is_ok());
}

#[test]
fn logout_revokes_refresh_token() {
    let issued = issue_refresh_token(7, 0).unwrap();
    let raw = logout_token(&issued.raw).unwrap();
    assert_eq!(raw, issued.raw);
    assert!(revokes_on_logout(Some(issued.record)));
    let revoked = revoke_refresh_record(issued.record, 1);
    assert!(!revokes_on_logout(Some(revoked)));
    assert!(check_refresh_record(Some(revoked), true, 2).is_err());
    assert!(logout_token("   ").is_none());
}

#[test]
fn expired_refresh_token_is_rejected() {
    let issued = issue_refresh_token(7, 0).unwrap();
    let expiry = issued.record.expires_at;
    assert!(check_refresh_record(Some(issued.record), true, expiry).is_ok());
    assert!(matches!(check_refresh_record(Some(issued.record), true, expiry + 1), Err(ServerError::Unauthorized)));
    assert!(matches!(check_refresh_record(Some(issued.record), false, 1), Err(ServerError::Unauthorized)));
    match check_refresh_request(" ") {
        Err(ServerError::BadRequest(m)) => assert_eq!(m, "refresh_token is required"),
        other => panic!("unexpected {other:?}"),
    }
}

#[test]
fn registration_refusals() {
    match check_registration(" ", "hunter22") {
        Err(ServerError::BadRequest(m)) => assert_eq!(m, "email and password are required"),
        other => panic!("unexpected {other:?}"),
    }
    match check_registration("a@b.c", "short") {
        Err(ServerError::BadRequest(m)) => assert_eq!(m, "password must be at least 8 characters"),
        other => panic!("unexpected {other:?}"),
    }
    match new_account("a@b.c".to_owned(), "hunter22", true, 0) {
        Err(ServerError::Conflict(m)) => assert_eq!(m, "email already registered"),
        other => panic!("unexpected {other:?}"),
    }
    let jwt = JwtService::new(KEY);
    assert!(matches!(login(&jwt, None, "x"), Err(ServerError::Unauthorized)));
    let account = account_with_password("hunter22");
    assert!(matches!(
        login(&jwt, Some(account), "wrong-password"),
        Err(ServerError::Auth(AuthError::InvalidCredentials))
    ));
}

#[test]
fn change_password_updates_credentials() {
    let account = account_with_password("hunter22");
    match change_password(Some(account.clone()), "hunter22", "short") {
        Err(ServerError::BadRequest(m)) => assert_eq!(m, "new password must be at least 8 characters"),
        other => panic!("unexpected {other:?}"),
    }
    match change_password(Some(account.clone()), "", "newpass99") {
        Err(ServerError::BadRequest(m)) => assert_eq!(m, "current_password and new_password are required"),
        other => panic!("unexpected {other:?}"),
    }
    assert!(matches!(
        change_password(Some(account.clone()), "wrong-pass", "newpass99"),
        Err(ServerError::Auth(AuthError::InvalidCredentials))
    ));
    let changed = change_password(Some(account), "hunter22", "newpass99").unwrap();
    let jwt = JwtService::new(KEY);
    assert!(login(&jwt, Some(changed.clone()), "hunter22").is_err());
    assert!(matches!(login(&jwt, Some(changed), "newpass99"), Ok(LoginOutcome::Authenticated(_))));
}

#[test]
fn totp_setup_enable_and_login_requires_mfa() {
    let account = new_account("mfa-1@example.com".to_owned(), "hunter22", false, 0).unwrap();
    let (account, setup) = totp_setup(Some(account), KEY).unwrap();
    assert!(setup.otpauth_uri.starts_with("otpauth://"));
    assert!(!account.totp_enabled);
    let code = current_totp_code(&account.email, &setup.secret).unwrap();
    let enabled = totp_enable(Some(account), KEY, &code).unwrap();
    assert_eq!(enabled.recovery_codes.len(), 10);
    assert_eq!(enabled.code_hashes.len(), 10);
    assert_eq!(enabled.code_hashes[0], hash_recovery_code(&enabled.recovery_codes[0]));
    let account = enabled.account;
    assert!(account.totp_enabled);

    let jwt = JwtService::new(KEY);
    let token = match login(&jwt, Some(account.clone()), "hunter22").unwrap() {
        LoginOutcome::MfaRequired(token) => token,
        other => panic!("expected mfa token, got {other:?}"),
    };
    let (token, code_trimmed) = check_mfa_request(&token, &format!(" {code} ")).unwrap();
    assert_eq!(jwt.validate_mfa_pending(&token).unwrap(), account.id);
    assert!(matches!(
        second_factor(Some(account.clone()), KEY, &code_trimmed).unwrap(),
        SecondFactor::Verified
    ));
    match second_factor(Some(account.clone()), KEY, "000000") {
        Ok(SecondFactor::RecoveryCode(h)) => assert_eq!(h, hash_recovery_code("000000")),
        Ok(SecondFactor::Verified) => {}
        Err(e) => panic!("unexpected {e:?}"),
    }
    match totp_setup(Some(account.clone()), KEY) {
        Err(ServerError::Conflict(m)) => assert_eq!(m, "2FA is already enabled"),
        other => panic!("unexpected {other:?}"),
    }
}

#[test]
fn recovery_code_can_complete_mfa_login() {
    let account = new_account("recovery-1@example.com".to_owned(), "hunter22", false, 0).unwrap();
    let (account, setup) = totp_setup(Some(account), KEY).unwrap();
    let code = current_totp_code(&account.email, &setup.secret).unwrap();
    let enabled = totp_enable(Some(account), KEY, &code).unwrap();
    let recovery = enabled.recovery_codes[0].clone();
    match second_factor(Some(enabled.account), KEY, &recovery).unwrap() {
        SecondFactor::RecoveryCode(h) => {
            assert!(enabled.code_hashes.contains(&h));
            recovery_code_result(true).unwrap();
        }
        SecondFactor::Verified => panic!("a recovery code is not a TOTP code"),
    }
    assert!(matches!(recovery_code_result(false), Err(ServerError::Unauthorized)));
}

#[test]
fn totp_disable_turns_off_mfa() {
    let account = new_account("disable-1@example.com".to_owned(), "hunter22", false, 0).unwrap();
    let (account, setup) = totp_setup(Some(account), KEY).unwrap();
    let code = current_totp_code(&account.email, &setup.secret).unwrap();
    let account = totp_enable(Some(account), KEY, &code).unwrap().account;
    match totp_disable_check(Some(account.clone()), KEY, "", "123456") {
        Err(ServerError::BadRequest(m)) => assert_eq!(m, "password and code are required"),
        other => panic!("unexpected {other:?}"),
    }
    assert!(matches!(
        totp_disable_check(Some(account.clone()), KEY, "wrong-pass", &code),
        Err(ServerError::Auth(AuthError::InvalidCredentials))
    ));
    let code = current_totp_code(&account.email, &setup.secret).unwrap();
    assert!(matches!(
        totp_disable_check(Some(account.clone()), KEY, "hunter22", &code).unwrap(),
        SecondFactor::Verified
    ));
    let off = totp_disabled(account);
    assert!(!off.totp_enabled);
    assert!(off.totp_secret.is_none());
    match totp_disable_check(Some(off.clone()), KEY, "hunter22", &code) {
        Err(ServerError::BadRequest(m)) => assert_eq!(m, "2FA is not enabled"),
        other => panic!("unexpected {other:?}"),
    }
    let jwt = JwtService::new(KEY);
    assert!(matches!(login(&jwt, Some(off), "hunter22"), Ok(LoginOutcome::Authenticated(_))));
}

#[test]
fn totp_enable_refusals() {
    let account = account_with_password("hunter22");
    match totp_enable(Some(account.clone()), KEY, "  ") {
        Err(ServerError::BadRequest(m)) => assert_eq!(m, "code is required"),
        other => panic!("unexpected {other:?}"),
    }
    match totp_enable(Some(account), KEY, "123456") {
        Err(ServerError::BadRequest(m)) => assert_eq!(m, "call /auth/2fa/setup before enabling 2FA"),
        other => panic!("unexpected {other:?}"),
    }
    assert!(matches!(totp_enable(None, KEY, "123456"), Err(ServerError::Unauthorized)));
    match check_mfa_request("", "123456") {
        Err(ServerError::BadRequest(m)) => assert_eq!(m, "mfa_token and code are required"),
        other => panic!("unexpected {other:?}"),
    }
}

#[test]
fn auth_me_returns_account_email() {
    let email = check_registration("me@example.com", "hunter22").unwrap();
    let account = new_account(email, "hunter22", false, 0).unwrap();
    let jwt = JwtService::new(KEY);
    let token = jwt.issue(account.id).unwrap();
    let header = format!("Bearer {token}");
    let id = failsafe::accounts::authenticate(&jwt, Some(&header)).unwrap();
    let id = require_existing_account(id, true).unwrap();
    assert_eq!(id, account.id);
    let me = account_summary(Some(account)).unwrap();
    assert_eq!(me.email, "me@example.com");
    assert!(!me.totp_enabled);
}

#[test]
fn protected_routes_reject_token_for_missing_account() {
    let jwt = JwtService::new(KEY);
    let token = jwt.issue(AccountId::new()).unwrap();
    let header = format!("Bearer {token}");
    let id = failsafe::accounts::authenticate(&jwt, Some(&header)).unwrap();
    assert!(matches!(require_existing_account(id, false), Err(ServerError::Unauthorized)));
    assert!(matches!(bearer_token(None), Err(ServerError::Unauthorized)));
    assert!(matches!(bearer_token(Some("Basic abc")), Err(ServerError::Unauthorized)));
    assert_eq!(bearer_token(Some("Bearer abc")).unwrap(), "abc");
    assert!(matches!(account_summary(None), Err(ServerError::Unauthorized)));
}
