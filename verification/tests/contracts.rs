use failsafe::accounts::{
    authenticate, login_reply, password_change, second_factor_at, totp_disable_check_at,
    totp_enable_at, totp_turned_off, LoginReply, SecondFactor,
    new_account, second_factor_checked, totp_disable_check_checked, totp_enable_checked,
    totp_setup, AccountRecord,
};
use failsafe::auth::{hash_password, JwtService};
use base64::Engine;
use failsafe::blobs::{
    download_event_step, download_finished, export_file_step, import_event_step,
    import_collection_files, import_file_finished, import_file_started, transfer_done, DownloadAction, DownloadEvent,
    ImportAction, ImportEvent,
};
use failsafe::error::{AuthError, ServerError, TransportError};
use failsafe::secrets::encrypt_secret;
use failsafe::ids::{AccountId, DeviceId, FeatureId};
use failsafe::network::MockNetwork;
use failsafe::router::publish;
use failsafe::pairing::normalize_code;
use failsafe::peers::AddressState;
use failsafe::presence::{logout_revocation, rotate_refresh, RefreshRecord, REFRESH_TOKEN_TTL_MICROS};
use failsafe::rate_limit::RateLimiter;
use failsafe::shell_host::{pty_output_step, PtyOutputAction, PtyRead};
use failsafe::totp::{
    build_otpauth_uri, current_totp_code, generate_totp_secret, totp_code_at_time, verify_totp_at,
};

const KEY: &str = "contract-test-key";

fn fresh_account(email: &str) -> AccountRecord {
    new_account(email.to_owned(), "long enough password", false, 7).unwrap()
}

#[test]
fn new_account_succeeds_for_a_free_address() {
    let account = fresh_account("someone@example.com");
    assert_eq!(account.email, "someone@example.com");
    assert!(!account.totp_enabled);
    assert!(account.totp_secret.is_none());
    assert_eq!(account.created_at, 7);
    assert!(hash_password("").is_ok());
}

#[test]
fn limiter_with_window_grants_two_then_refuses() {
    let mut limiter = RateLimiter::with_window(2, 60_000_000_000);
    assert!(limiter.allow_at("k", 0));
    assert!(limiter.allow_at("k", 1));
    assert!(!limiter.allow_at("k", 2));
    assert!(limiter.allow_at("other", 3));
    assert!(limiter.allow_at("k", 60_000_000_000));
}

#[test]
fn limiter_with_zero_limit_refuses() {
    let mut limiter = RateLimiter::with_window(0, 10);
    assert!(!limiter.allow_at("k", 0));
}

#[test]
fn access_token_validates_to_its_account() {
    let jwt = JwtService::new("test-secret");
    let id = AccountId::new();
    assert_eq!(jwt.validate(&jwt.issue(id).unwrap()).unwrap(), id);
    assert_eq!(jwt.validate_mfa_pending(&jwt.issue_mfa_pending(id).unwrap()).unwrap(), id);
    assert!(jwt.validate(&jwt.issue_mfa_pending(id).unwrap()).is_err());
    assert!(JwtService::new("other").validate(&jwt.issue(id).unwrap()).is_err());
}

#[test]
fn account_id_text_is_hyphenated_lower_hex() {
    let id = AccountId(0x0123_4567_89ab_cdef_0011_2233_4455_6677);
    assert_eq!(id.to_text(), "01234567-89ab-cdef-0011-223344556677");
    assert_eq!(AccountId::parse(&id.to_text()), Some(id));
}

#[test]
fn otpauth_uri_names_issuer_account_and_secret() {
    let uri = build_otpauth_uri("user@example.com", "JBSWY3DPEHPK3PXPJBSWY3DPEHPK3PXP").unwrap();
    assert_eq!(
        uri,
        "otpauth://totp/Failsafe:user%40example.com?secret=JBSWY3DPEHPK3PXPJBSWY3DPEHPK3PXP&issuer=Failsafe"
    );
}

#[test]
fn current_code_is_six_digits() {
    let secret = generate_totp_secret();
    assert_eq!(secret.len(), 32);
    let code = current_totp_code("user@example.com", &secret).unwrap();
    assert_eq!(code.len(), 6);
    assert!(code.chars().all(|c| c.is_ascii_digit()));
}

#[test]
fn totp_setup_succeeds_for_an_account_without_two_factor() {
    let account = fresh_account("setup@example.com");
    let (stored, setup) = totp_setup(Some(account), KEY).unwrap();
    assert!(!stored.totp_enabled);
    assert!(stored.totp_secret.is_some());
    assert!(setup.otpauth_uri.starts_with("otpauth://totp/Failsafe:setup%40example.com?secret="));
}

#[test]
fn checked_two_factor_entry_points_refuse_a_bad_nonce() {
    let mut account = fresh_account("nonce@example.com");
    account.totp_enabled = true;
    account.totp_secret = Some("AAAA:AAAA".to_owned());
    assert!(second_factor_checked(Some(account.clone()), KEY, "123456").is_none());
    assert!(totp_disable_check_checked(Some(account.clone()), KEY, "pw", "123456").is_none());
    account.totp_enabled = false;
    assert!(totp_enable_checked(Some(account), KEY, "123456").is_none());
    assert!(matches!(
        second_factor_checked(None, KEY, "123456"),
        Some(Err(ServerError::Unauthorized))
    ));
}

#[test]
fn normalized_code_normalizes_to_itself() {
    let code = normalize_code(" a3k9z1 ").unwrap();
    assert_eq!(normalize_code(&code), Some(code.clone()));
}

#[test]
fn address_book_update_keeps_state_on_failure() {
    let a = DeviceId::new();
    let b = DeviceId::new();
    let mut state = AddressState::from_book(
        vec![(a, "addr-a".to_owned())],
        &vec![Ok("ep-a".to_owned())],
    )
    .unwrap();
    assert_eq!(state.resolve("ep-a").unwrap(), a);
    let refused = state.update(
        vec![(a, "addr-a".to_owned()), (b, "bad".to_owned())],
        &vec![Ok("ep-a2".to_owned()), Err("bad key".to_owned())],
    );
    match refused {
        Err(TransportError::Codec(m)) => assert_eq!(m, "invalid iroh public key: bad key"),
        _ => panic!("a bad address is refused"),
    }
    assert_eq!(state.resolve("ep-a").unwrap(), a);
    assert!(state.resolve("ep-a2").is_err());
    state
        .update(vec![(b, "addr-b".to_owned())], &vec![Ok("ep-b".to_owned())])
        .unwrap();
    assert_eq!(state.resolve("ep-b").unwrap(), b);
    assert!(state.resolve("ep-a").is_err());
}

#[test]
fn terminal_output_step_sends_what_was_read() {
    let buf = [1u8, 2, 3, 4];
    match pty_output_step(&buf, PtyRead::Read(2)) {
        PtyOutputAction::Send(d) => assert_eq!(d, vec![1, 2]),
        _ => panic!("bytes read are sent"),
    }
    assert!(matches!(pty_output_step(&buf, PtyRead::Read(0)), PtyOutputAction::Stop));
    match pty_output_step(&buf, PtyRead::Failed("broken pipe".to_owned())) {
        PtyOutputAction::Fail(m) => assert_eq!(m, "broken pipe"),
        _ => panic!("a failed read ends the relay"),
    }
}

#[test]
fn export_steps_skip_existing_targets() {
    let (write, report) = export_file_step(1, 3, "a.txt", true);
    assert!(!write);
    assert_eq!(report.bytes_done, 2);
    assert_eq!(report.bytes_total, 3);
    assert_eq!(report.current_file.as_deref(), Some("a.txt"));
    let (write, report) = export_file_step(1, 3, "b.txt", false);
    assert!(write);
    assert_eq!(report.bytes_done, 1);
    let done = transfer_done(3);
    assert_eq!((done.bytes_done, done.bytes_total), (3, 3));
    assert!(done.current_file.is_none());
}

#[test]
fn rotation_revokes_and_issues() {
    let jwt = JwtService::new("rotation-secret");
    let id = AccountId::new();
    let record = RefreshRecord { account_id: id.0, expires_at: 1_000, revoked_at: None };
    let rotation = rotate_refresh(&jwt, Some(record), true, 10).unwrap();
    assert_eq!(rotation.revoked.revoked_at, Some(10));
    assert_eq!(rotation.issued.record.account_id, id.0);
    assert_eq!(rotation.issued.record.expires_at, 10 + REFRESH_TOKEN_TTL_MICROS);
    assert_eq!(rotation.issued.record.revoked_at, None);
    assert_eq!(jwt.validate(&rotation.token).unwrap(), id);
    assert!(matches!(
        rotate_refresh(&jwt, Some(rotation.revoked), true, 11),
        Err(ServerError::Unauthorized)
    ));
    assert!(matches!(rotate_refresh(&jwt, Some(record), false, 10), Err(ServerError::Unauthorized)));
    assert!(matches!(rotate_refresh(&jwt, Some(record), true, 1_001), Err(ServerError::Unauthorized)));
    assert!(matches!(rotate_refresh(&jwt, None, true, 10), Err(ServerError::Unauthorized)));
}

#[test]
fn logout_revokes_only_a_live_record() {
    let record = RefreshRecord { account_id: 1, expires_at: 100, revoked_at: None };
    assert_eq!(logout_revocation(Some(record), 5), Some(RefreshRecord { revoked_at: Some(5), ..record }));
    let revoked = RefreshRecord { revoked_at: Some(3), ..record };
    assert_eq!(logout_revocation(Some(revoked), 5), None);
    assert_eq!(logout_revocation(None, 5), None);
}

#[test]
fn token_claims_are_written_in_order() {
    let jwt = JwtService::new("order-secret");
    let token = jwt.issue_mfa_pending(AccountId(1)).unwrap();
    let payload = token.split('.').nth(1).unwrap();
    let json = base64::engine::general_purpose::URL_SAFE_NO_PAD.decode(payload).unwrap();
    let text = String::from_utf8(json).unwrap();
    assert!(text.starts_with("{\"sub\":\"00000000-0000-0000-0000-000000000001\",\"exp\":"));
    let exp = text.find("\"exp\"").unwrap();
    let iat = text.find("\"iat\"").unwrap();
    let mfa = text.find("\"mfa_pending\":true").unwrap();
    assert!(exp < iat && iat < mfa);
}

#[test]
fn import_steps_track_bytes_and_failures() {
    let start = import_file_started("a.txt", 10, 100);
    assert_eq!((start.bytes_done, start.bytes_total), (10, 100));
    let (size, action) = import_event_step("a.txt", "/tmp/a.txt", 10, 100, 0, ImportEvent::Size(40));
    assert_eq!(size, 40);
    assert!(matches!(action, ImportAction::Continue));
    match import_event_step("a.txt", "/tmp/a.txt", 10, 100, 40, ImportEvent::CopyProgress(5)).1 {
        ImportAction::Report(p) => {
            assert_eq!(p.bytes_done, 15);
            assert_eq!(p.current_file.as_deref(), Some("a.txt"));
        }
        _ => panic!("copy progress is reported"),
    }
    match import_event_step("a.txt", "/tmp/a.txt", 10, 100, 40, ImportEvent::Failed("disk full".to_owned())).1 {
        ImportAction::Fail(failsafe::error::BlobError::Store(m)) => assert_eq!(m, "failed to import /tmp/a.txt: disk full"),
        _ => panic!("a failure stops the import"),
    }
    match import_event_step("a.txt", "/tmp/a.txt", 10, 100, 40, ImportEvent::Ended).1 {
        ImportAction::Fail(failsafe::error::BlobError::Store(m)) => {
            assert_eq!(m, "import stream ended before completion for /tmp/a.txt")
        }
        _ => panic!("an early end stops the import"),
    }
    assert!(matches!(
        import_event_step("a.txt", "/tmp/a.txt", 10, 100, 40, ImportEvent::Done).1,
        ImportAction::Finish
    ));
    let (done, file, report) = import_file_finished("a.txt", 10, 100, 40);
    assert_eq!(done, 50);
    assert_eq!((file.name.as_str(), file.size), ("a.txt", 40));
    assert_eq!(report.bytes_done, 50);
    assert_eq!(import_file_finished("b", u64::MAX - 1, 100, 5).0, u64::MAX);
}

#[test]
fn download_steps_clamp_and_fail() {
    match download_event_step(100, DownloadEvent::Progress(150)) {
        DownloadAction::Report(p) => assert_eq!((p.bytes_done, p.bytes_total), (100, 100)),
        _ => panic!("progress is reported"),
    }
    match download_event_step(100, DownloadEvent::DownloadFailed) {
        DownloadAction::Fail(failsafe::error::BlobError::Store(m)) => assert_eq!(m, "download failed"),
        _ => panic!("a failed download stops"),
    }
    assert!(matches!(download_event_step(100, DownloadEvent::Other), DownloadAction::Continue));
    assert_eq!(download_finished(true, 100).unwrap().bytes_done, 100);
    match download_finished(false, 100) {
        Err(failsafe::error::BlobError::Store(m)) => {
            assert_eq!(m, "download ended before collection was complete")
        }
        _ => panic!("an incomplete collection is an error"),
    }
}

#[test]
fn publish_reaches_connected_candidates_only() {
    let mut net = MockNetwork::new();
    let local = net.connect();
    let peer = net.connect();
    let absent = DeviceId::new();
    publish(&mut net, local, &vec![absent, peer, local], &FeatureId::from_static("clipboard"), &b"hi".to_vec()).unwrap();
    let got = net.try_recv(peer).unwrap().unwrap();
    assert_eq!((got.from, got.to, got.feature.as_str(), got.payload.as_slice()), (local, peer, "clipboard", &b"hi"[..]));
    assert!(net.try_recv(peer).unwrap().is_none());
    assert!(net.try_recv(local).unwrap().is_none());
}

#[test]
fn password_change_revokes_the_accounts_refresh_tokens() {
    let account = fresh_account("change@example.com");
    let id = account.id.0;
    let mine = RefreshRecord { account_id: id, expires_at: 1_000, revoked_at: None };
    let old = RefreshRecord { account_id: id, expires_at: 1_000, revoked_at: Some(3) };
    let other = RefreshRecord { account_id: id.wrapping_add(1), expires_at: 1_000, revoked_at: None };
    let (stored, records) =
        password_change(Some(account), "long enough password", "another password", &vec![mine, old, other], 9).unwrap();
    assert_eq!(stored.id.0, id);
    assert_eq!(records, vec![RefreshRecord { revoked_at: Some(9), ..mine }, old, other]);
    let refused = password_change(Some(stored), "wrong password", "another password", &vec![mine], 9);
    assert!(refused.is_err());
}

#[test]
fn import_of_a_collection_reports_open_and_close() {
    let files = vec![("a".to_owned(), "/p/a".to_owned()), ("b".to_owned(), "/p/b".to_owned())];
    let events = vec![
        vec![ImportEvent::Size(3), ImportEvent::CopyProgress(2), ImportEvent::Done, ImportEvent::Ended],
        vec![ImportEvent::Size(4), ImportEvent::Other, ImportEvent::Done],
    ];
    let (reports, result) = import_collection_files(&files, &events, 7);
    let seen: Vec<(u64, u64, Option<String>)> =
        reports.iter().map(|p| (p.bytes_done, p.bytes_total, p.current_file.clone())).collect();
    assert_eq!(
        seen,
        vec![
            (0, 7, Some("a".to_owned())),
            (2, 7, Some("a".to_owned())),
            (3, 7, Some("a".to_owned())),
            (3, 7, Some("b".to_owned())),
            (7, 7, Some("b".to_owned())),
            (7, 7, None),
        ]
    );
    let imported = result.unwrap();
    assert_eq!(imported.iter().map(|f| (f.name.as_str(), f.size)).collect::<Vec<_>>(), vec![("a", 3), ("b", 4)]);
    let (reports, result) = import_collection_files(&files, &vec![vec![ImportEvent::Size(3)], vec![]], 7);
    assert_eq!(reports.len(), 1);
    match result {
        Err(failsafe::error::BlobError::Store(m)) => assert_eq!(m, "import stream ended before completion for /p/a"),
        _ => panic!("an unfinished import is an error"),
    }
}

#[test]
fn authenticate_reads_the_bearer_token() {
    let jwt = JwtService::new("auth-secret");
    let id = AccountId::new();
    let token = jwt.issue(id).unwrap();
    assert_eq!(authenticate(&jwt, Some(&format!("Bearer {token}"))).unwrap(), id);
    assert!(matches!(authenticate(&jwt, Some(&token)), Err(ServerError::Unauthorized)));
    assert!(matches!(authenticate(&jwt, None), Err(ServerError::Unauthorized)));
    let pending = jwt.issue_mfa_pending(id).unwrap();
    assert!(authenticate(&jwt, Some(&format!("Bearer {pending}"))).is_err());
}

#[test]
fn lower_case_ascii_codes_normalize() {
    assert_eq!(normalize_code("zz99aa").as_deref(), Some("ZZ99AA"));
}

const RFC_SECRET: &str = "GEZDGNBVGY3TQOJQGEZDGNBVGY3TQOJQ";

#[test]
fn codes_at_given_times_match_the_rfc_vectors() {
    assert_eq!(totp_code_at_time("user@example.com", RFC_SECRET, 59).unwrap(), "287082");
    assert_eq!(totp_code_at_time("user@example.com", RFC_SECRET, 1111111109).unwrap(), "081804");
    assert_eq!(totp_code_at_time("user@example.com", RFC_SECRET, 1234567890).unwrap(), "005924");
    assert!(totp_code_at_time("a:b", RFC_SECRET, 59).is_err());
}

#[test]
fn a_shown_code_is_accepted_within_a_step() {
    let email = "user@example.com";
    assert!(verify_totp_at(email, RFC_SECRET, "287082", 59).is_ok());
    assert!(verify_totp_at(email, RFC_SECRET, " 287082 ", 89).is_ok());
    assert!(verify_totp_at(email, RFC_SECRET, "287082", 1111111109).is_err());
    assert!(verify_totp_at(email, RFC_SECRET, "287082", 10).is_err());
    assert!(verify_totp_at(email, RFC_SECRET, "28708", 59).is_err());
}

#[test]
fn turning_two_factor_off_revokes_refresh_tokens() {
    let mut account = fresh_account("off@example.com");
    account.totp_enabled = true;
    account.totp_secret = Some("sealed".to_owned());
    let id = account.id.0;
    let live = RefreshRecord { account_id: id, expires_at: 50, revoked_at: None };
    let (stored, records) = totp_turned_off(account, &vec![live], 4);
    assert!(!stored.totp_enabled);
    assert!(stored.totp_secret.is_none());
    assert_eq!(records, vec![RefreshRecord { revoked_at: Some(4), ..live }]);
}

#[test]
fn login_reply_signs_in_or_asks_for_the_second_factor() {
    let jwt = JwtService::new("login-secret");
    let account = fresh_account("login@example.com");
    match login_reply(&jwt, Some(account.clone()), "long enough password", 100).unwrap() {
        LoginReply::Signed(t) => {
            assert_eq!(jwt.validate(&t.token).unwrap(), account.id);
            assert_eq!(t.refresh.record.account_id, account.id.0);
            assert_eq!(t.refresh.raw.len(), 64);
        }
        LoginReply::MfaRequired(_) => panic!("no second factor is set"),
    }
    let mut with_mfa = account.clone();
    with_mfa.totp_enabled = true;
    match login_reply(&jwt, Some(with_mfa), "long enough password", 100).unwrap() {
        LoginReply::MfaRequired(t) => assert_eq!(jwt.validate_mfa_pending(&t).unwrap(), account.id),
        LoginReply::Signed(_) => panic!("a second factor is owed"),
    }
    assert!(matches!(login_reply(&jwt, None, "x", 100), Err(ServerError::Unauthorized)));
    assert!(login_reply(&jwt, Some(account), "wrong password", 100).is_err());
}

fn account_with_rfc_secret(enabled: bool) -> AccountRecord {
    let mut account = fresh_account("user@example.com");
    account.totp_secret = Some(encrypt_secret(KEY, RFC_SECRET).unwrap());
    account.totp_enabled = enabled;
    account
}

#[test]
fn second_factor_verifies_only_the_code_of_the_moment() {
    let account = account_with_rfc_secret(true);
    assert!(matches!(
        second_factor_at(Some(account.clone()), KEY, "287082", Some(59)),
        Ok(SecondFactor::Verified)
    ));
    assert!(matches!(
        second_factor_at(Some(account.clone()), KEY, "287082", Some(1111111109)),
        Ok(SecondFactor::RecoveryCode(_))
    ));
    assert!(matches!(
        second_factor_at(Some(account), KEY, "287082", None),
        Ok(SecondFactor::RecoveryCode(_))
    ));
}

#[test]
fn enabling_two_factor_refuses_a_code_that_is_not_current() {
    let account = account_with_rfc_secret(false);
    let enabled = totp_enable_at(Some(account.clone()), KEY, "287082", Some(59)).unwrap();
    assert!(enabled.account.totp_enabled);
    assert_eq!(enabled.recovery_codes.len(), 10);
    assert!(matches!(
        totp_enable_at(Some(account.clone()), KEY, "287082", Some(1234567890)),
        Err(ServerError::Auth(AuthError::InvalidCredentials))
    ));
    assert!(matches!(
        totp_enable_at(Some(account), KEY, "287082", None),
        Err(ServerError::Auth(AuthError::InvalidCredentials))
    ));
}

#[test]
fn turning_two_factor_off_checks_the_code_of_the_moment() {
    let account = account_with_rfc_secret(true);
    assert!(matches!(
        totp_disable_check_at(Some(account.clone()), KEY, "long enough password", "287082", Some(89)),
        Ok(SecondFactor::Verified)
    ));
    assert!(matches!(
        totp_disable_check_at(Some(account.clone()), KEY, "long enough password", "287082", Some(1234567890)),
        Ok(SecondFactor::RecoveryCode(_))
    ));
    assert!(matches!(
        totp_disable_check_at(Some(account), KEY, "wrong password", "287082", Some(89)),
        Err(ServerError::Auth(AuthError::InvalidCredentials))
    ));
}

#[test]
fn download_start_skips_a_complete_collection() {
    let done = failsafe::blobs::download_start(true, 40).unwrap();
    assert_eq!((done.bytes_done, done.bytes_total), (40, 40));
    assert!(done.current_file.is_none());
    assert!(failsafe::blobs::download_start(false, 40).is_none());
}

#[test]
fn publishing_over_a_failing_transport_reports_each_failure() {
    let local = DeviceId(1);
    let a = DeviceId(2);
    let b = DeviceId(3);
    let messages = failsafe::router::outbound_messages(local, &vec![a, b], &FeatureId::from_static("clipboard"), &b"x".to_vec());
    assert_eq!(messages.len(), 2);
    assert_eq!((messages[0].from, messages[0].to, messages[1].to), (local, a, b));
    assert_eq!(messages[1].payload, b"x".to_vec());
    assert!(failsafe::router::publish_outcome(&vec![a, b], &vec![Ok(()), Ok(())]).is_ok());
    match failsafe::router::publish_outcome(&vec![a, b], &vec![Err(TransportError::Disconnected), Ok(())]) {
        Err(failsafe::router::PublishError::Failed(m)) => {
            assert_eq!(m, format!("{}: transport disconnected", a.to_text()))
        }
        Ok(()) => panic!("a failed send is reported"),
    }
}

#[test]
fn relaying_terminal_output_keeps_the_bytes_in_order() {
    let reads = vec![Ok(vec![1u8, 2]), Ok(vec![3]), Ok(vec![]), Ok(vec![9])];
    let (chunks, end) = failsafe::shell_host::relay_output(&reads);
    assert_eq!(chunks, vec![vec![1u8, 2], vec![3]]);
    assert!(end.is_ok());
    let (chunks, end) = failsafe::shell_host::relay_output(&vec![Ok(vec![5u8]), Err("broken".to_owned())]);
    assert_eq!(chunks, vec![vec![5u8]]);
    assert_eq!(end.unwrap_err(), "broken");
}

#[test]
fn imported_collection_fetches_back() {
    let mut store = failsafe::blob_store::MockBlobTransfer::new();
    let files = vec![("a.txt".to_owned(), b"alpha".to_vec()), ("b.txt".to_owned(), b"beta".to_vec())];
    let (hash, _, _) = store.import_files(files.clone(), 9).unwrap();
    assert_eq!(store.collection_files(&hash).unwrap(), files);
}
