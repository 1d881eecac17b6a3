use mailcore::credentials::{
    finish_oauth2_refresh, plan_oauth2_resolution, plan_password_resolution, Credentials,
    ResolvePlan, TokenSet,
};
use mailcore::errors::MailError;

fn tokens(access: &str, refresh: Option<&str>, expires_at: i64) -> TokenSet {
    TokenSet {
        access_token: access.to_string(),
        refresh_token: refresh.map(|s| s.to_string()),
        expires_at,
    }
}

#[test]
fn fresh_token_is_used_without_refresh() {
    // expires_at > now + 60: more than the safety margin left
    let t = tokens("at", Some("rt"), 1061);
    match plan_oauth2_resolution("u@example.test", Some(&t), None, 1000) {
        ResolvePlan::Ready { credentials: Credentials::OAuth2 { user, access_token } } => {
            assert_eq!(user, "u@example.test");
            assert_eq!(access_token, "at");
        }
        _ => panic!("a fresh token must be used as-is, with no refresh"),
    }
}

#[test]
fn expiring_token_forces_refresh() {
    // expires_at == now + 60: within the safety margin, treated as expired
    let t = tokens("at", Some("rt"), 1060);
    match plan_oauth2_resolution("u", Some(&t), None, 1000) {
        ResolvePlan::RefreshNeeded { refresh_token } => assert_eq!(refresh_token, "rt"),
        _ => panic!("an expiring token must be refreshed before use"),
    }
}

#[test]
fn expired_without_refresh_token_needs_reauth() {
    let t = tokens("at", None, 500);
    match plan_oauth2_resolution("u", Some(&t), None, 1000) {
        ResolvePlan::Failed { error } => assert_eq!(error, MailError::ReauthRequired),
        _ => panic!("no refresh token must mean re-authentication, never a refresh"),
    }
}

#[test]
fn no_stored_tokens_is_unauthenticated() {
    match plan_oauth2_resolution("u", None, None, 1000) {
        ResolvePlan::Failed { error } => assert_eq!(error, MailError::Unauthenticated),
        _ => panic!("missing tokens must fail as unauthenticated"),
    }
}

#[test]
fn legacy_slot_is_used_when_account_slot_missing() {
    let t = tokens("legacy-at", None, 10_000);
    match plan_oauth2_resolution("u", None, Some(&t), 1000) {
        ResolvePlan::Ready { credentials: Credentials::OAuth2 { access_token, .. } } => {
            assert_eq!(access_token, "legacy-at");
        }
        _ => panic!("the legacy single-account slot must be the fallback"),
    }
}

#[test]
fn refresh_failure_is_reported() {
    match finish_oauth2_refresh("u", None) {
        Err(e) => assert_eq!(e, MailError::RefreshFailed),
        Ok(_) => panic!("a failed refresh must be reported"),
    }
}

#[test]
fn refresh_success_builds_credentials_and_hands_back_tokens() {
    let new_tokens = tokens("new-at", Some("rt"), 99_000);
    match finish_oauth2_refresh("u", Some(new_tokens)) {
        Ok((Credentials::OAuth2 { user, access_token }, to_persist)) => {
            assert_eq!(user, "u");
            assert_eq!(access_token, "new-at");
            assert_eq!(to_persist.access_token, "new-at");
        }
        _ => panic!("a successful refresh must yield credentials and tokens to persist"),
    }
}

#[test]
fn password_resolution_uses_stored_password() {
    match plan_password_resolution("u", Some("pw".to_string())) {
        Ok(Credentials::Password { user, password }) => {
            assert_eq!(user, "u");
            assert_eq!(password, "pw");
        }
        _ => panic!("a stored password must yield password credentials"),
    }
    match plan_password_resolution("u", None) {
        Err(e) => assert_eq!(e, MailError::Unauthenticated),
        Ok(_) => panic!("a missing password must fail as unauthenticated"),
    }
}

#[test]
fn error_messages_name_each_kind() {
    assert_eq!(MailError::Unauthenticated.message(), "Not authenticated");
    assert_eq!(MailError::RefreshFailed.message(), "Token refresh failed");
    assert_eq!(MailError::InvalidAddress.message(), "Invalid email ID");
    assert_eq!(
        MailError::NoActiveAccount.message(),
        "No active account. Please add an account first."
    );
}
