use mailcore::credentials::{Credentials, TokenSet};
use mailcore::errors::MailError;
use mailcore::session::{Account, AuthKind, Provider, SessionCache, SessionOutcome};

fn account(kind: AuthKind) -> Account {
    Account {
        id: "acme".to_string(),
        email: "u@acme.test".to_string(),
        auth_kind: kind,
        provider: Provider::Gmail,
        imap_host: "imap.acme.test".to_string(),
        imap_port: 993,
        smtp_host: "smtp.acme.test".to_string(),
        smtp_port: 587,
    }
}

fn tokens(access: &str, refresh: Option<&str>, expires_at: i64) -> TokenSet {
    TokenSet {
        access_token: access.to_string(),
        refresh_token: refresh.map(|s| s.to_string()),
        expires_at,
    }
}

#[test]
fn repeated_get_returns_cached_handle() {
    let mut cache = SessionCache::new();
    let acct = account(AuthKind::OAuth2);
    let t = tokens("at", Some("rt"), 10_000);
    let now = 1000;
    let first = match cache.get_or_create_session(&acct, None, Some(&t), None, now) {
        SessionOutcome::Created { handle } => handle,
        _ => panic!("first call must create a handle"),
    };
    let second = match cache.get_or_create_session(&acct, None, Some(&t), None, now) {
        SessionOutcome::Cached { handle } => handle,
        _ => panic!("second call must hit the cache and resolve nothing"),
    };
    assert_eq!(first.generation, second.generation);
    assert_eq!(cache.session_count(), 1);
}

#[test]
fn expired_token_evicts_and_recreates() {
    let mut cache = SessionCache::new();
    let acct = account(AuthKind::OAuth2);
    let t = tokens("at", Some("rt"), 10_000);
    let first = match cache.get_or_create_session(&acct, None, Some(&t), None, 1000) {
        SessionOutcome::Created { handle } => handle,
        _ => panic!("first call must create a handle"),
    };
    // the same stored tokens, long past expiry: the cached handle is stale
    match cache.get_or_create_session(&acct, None, Some(&t), None, 99_000) {
        SessionOutcome::RefreshNeeded { refresh_token } => assert_eq!(refresh_token, "rt"),
        _ => panic!("an expired token must demand a refresh, not a cache hit"),
    }
    assert!(!cache.has_cached_session("acme"));
    let refreshed = tokens("new-at", Some("rt"), 200_000);
    match cache.install_refreshed_session(&acct, Some(refreshed)) {
        Ok((handle, to_persist)) => {
            assert_ne!(handle.generation, first.generation);
            assert_eq!(to_persist.access_token, "new-at");
            match handle.credentials {
                Credentials::OAuth2 { access_token, .. } => assert_eq!(access_token, "new-at"),
                _ => panic!("an OAuth2 account must get OAuth2 credentials"),
            }
        }
        Err(_) => panic!("installing a refreshed session must succeed"),
    }
    assert!(cache.has_cached_session("acme"));
}

#[test]
fn failed_refresh_leaves_cache_empty() {
    let mut cache = SessionCache::new();
    let acct = account(AuthKind::OAuth2);
    match cache.install_refreshed_session(&acct, None) {
        Err(e) => assert_eq!(e, MailError::RefreshFailed),
        Ok(_) => panic!("a failed refresh must be reported"),
    }
    assert_eq!(cache.session_count(), 0);
}

#[test]
fn password_account_uses_stored_password() {
    let mut cache = SessionCache::new();
    let acct = account(AuthKind::Password);
    match cache.get_or_create_session(&acct, Some("pw".to_string()), None, None, 1000) {
        SessionOutcome::Created { handle } => {
            assert_eq!(handle.account_id, "acme");
            assert_eq!(handle.email, "u@acme.test");
            assert!(handle.config.use_tls);
            assert_eq!(handle.config.imap_host, "imap.acme.test");
            assert_eq!(handle.config.imap_port, 993);
            match handle.credentials {
                Credentials::Password { user, password } => {
                    assert_eq!(user, "u@acme.test");
                    assert_eq!(password, "pw");
                }
                _ => panic!("a password account must get password credentials"),
            }
        }
        _ => panic!("a password account with a stored password must get a session"),
    }
}

#[test]
fn missing_password_is_unauthenticated() {
    let mut cache = SessionCache::new();
    let acct = account(AuthKind::Password);
    match cache.get_or_create_session(&acct, None, None, None, 1000) {
        SessionOutcome::Failed { error } => assert_eq!(error, MailError::Unauthenticated),
        _ => panic!("a missing password must fail as unauthenticated"),
    }
}

#[test]
fn expired_without_refresh_token_is_reauth() {
    let mut cache = SessionCache::new();
    let acct = account(AuthKind::OAuth2);
    let t = tokens("at", None, 500);
    match cache.get_or_create_session(&acct, None, Some(&t), None, 1000) {
        SessionOutcome::Failed { error } => assert_eq!(error, MailError::ReauthRequired),
        _ => panic!("expiry without a refresh token must demand re-authentication"),
    }
}
