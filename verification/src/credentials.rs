//! Credential model and the resolution decisions of the credential resolver.
//!
//! Stored OAuth token sets are judged against a 60-second safety margin before
//! their expiry; resolution either uses the stored access token, demands a
//! refresh, or fails. The store reads and the refresh network call themselves
//! happen outside this core; these functions take their results as values and
//! make every decision around them.

use vstd::prelude::*;

use crate::errors::MailError;

verus! {

/// Seconds before actual expiry at which a token is already treated as expired.
pub const EXPIRY_MARGIN_SECS: i64 = 60;

/// A stored OAuth token set. `expires_at` is an absolute timestamp in seconds.
#[derive(Clone)]
pub struct TokenSet {
    pub access_token: String,
    pub refresh_token: Option<String>,
    pub expires_at: i64,
}

/// Transient credentials, built fresh for every connection attempt.
pub enum Credentials {
    Password { user: String, password: String },
    OAuth2 { user: String, access_token: String },
}

/// A token counts as expired once it has at most the safety margin left.
pub open spec fn token_expired(t: TokenSet, now: i64) -> bool {
    t.expires_at <= now + EXPIRY_MARGIN_SECS
}

/// The token set resolution works on: the account-scoped one when present,
/// else the legacy single-account slot (kept for storage-layout migration).
pub open spec fn spec_stored_tokens(
    account_tokens: Option<TokenSet>,
    legacy_tokens: Option<TokenSet>,
) -> Option<TokenSet> {
    if account_tokens is Some {
        account_tokens
    } else {
        legacy_tokens
    }
}

/// What OAuth2 credential resolution decides, before any outside call is made.
pub enum ResolutionKind {
    /// The stored token is usable as-is.
    UseStored,
    /// The stored token is expired but refreshable: a refresh must be attempted.
    Refresh,
    /// No token set is stored at all.
    FailUnauthenticated,
    /// The stored token is expired and carries no refresh token.
    FailReauth,
}

/// The decision OAuth2 resolution must take for the given stored state.
pub open spec fn oauth2_resolution_kind(
    account_tokens: Option<TokenSet>,
    legacy_tokens: Option<TokenSet>,
    now: i64,
) -> ResolutionKind {
    match spec_stored_tokens(account_tokens, legacy_tokens) {
        None => ResolutionKind::FailUnauthenticated,
        Some(t) => if !token_expired(t, now) {
            ResolutionKind::UseStored
        } else if t.refresh_token is Some {
            ResolutionKind::Refresh
        } else {
            ResolutionKind::FailReauth
        },
    }
}

/// The outcome of planning OAuth2 resolution: either finished credentials, a
/// demand to call the token refresher first, or a typed failure.
pub enum ResolvePlan {
    Ready { credentials: Credentials },
    RefreshNeeded { refresh_token: String },
    Failed { error: MailError },
}

/// Whether a token is already expired, under the 60-second safety margin.
pub fn is_token_expired(t: &TokenSet, now: i64) -> (r: bool)
    requires
        now + EXPIRY_MARGIN_SECS <= i64::MAX,
    ensures
        r == token_expired(*t, now),
{
    t.expires_at <= now + EXPIRY_MARGIN_SECS
}

/// Plan OAuth2 credential resolution from the stored token sets.
///
/// Mirrors the resolver contract: an expired token is never handed out as
/// credentials; it forces a refresh demand when a refresh token exists and a
/// re-authentication failure when none does; a missing token set fails as
/// unauthenticated.
pub fn plan_oauth2_resolution(
    email: &str,
    account_tokens: Option<&TokenSet>,
    legacy_tokens: Option<&TokenSet>,
    now: i64,
) -> (r: ResolvePlan)
    requires
        now + EXPIRY_MARGIN_SECS <= i64::MAX,
    ensures
        ({
            let acct = if account_tokens is Some {
                Some(*account_tokens->0)
            } else {
                None::<TokenSet>
            };
            let leg = if legacy_tokens is Some {
                Some(*legacy_tokens->0)
            } else {
                None::<TokenSet>
            };
            let kind = oauth2_resolution_kind(acct, leg, now);
            let stored = spec_stored_tokens(acct, leg);
            match r {
                ResolvePlan::Ready { credentials } => {
                    &&& kind is UseStored
                    &&& credentials matches Credentials::OAuth2 { user, access_token }
                        && user@ == email@ && access_token@ == stored->0.access_token@
                },
                ResolvePlan::RefreshNeeded { refresh_token } => {
                    &&& kind is Refresh
                    &&& refresh_token@ == stored->0.refresh_token->0@
                },
                ResolvePlan::Failed { error } => {
                    &&& kind is FailUnauthenticated ==> error == MailError::Unauthenticated
                    &&& kind is FailReauth ==> error == MailError::ReauthRequired
                    &&& (kind is FailUnauthenticated || kind is FailReauth)
                },
            }
        }),
{
    let tokens: &TokenSet = match account_tokens {
        Some(t) => t,
        None => match legacy_tokens {
            Some(t) => t,
            None => {
                return ResolvePlan::Failed { error: MailError::Unauthenticated };
            },
        },
    };
    if is_token_expired(tokens, now) {
        match &tokens.refresh_token {
            Some(rt) => ResolvePlan::RefreshNeeded { refresh_token: rt.clone() },
            None => ResolvePlan::Failed { error: MailError::ReauthRequired },
        }
    } else {
        ResolvePlan::Ready {
            credentials: Credentials::OAuth2 {
                user: email.to_owned(),
                access_token: tokens.access_token.clone(),
            },
        }
    }
}

/// Turn the token refresher's outcome into credentials.
///
/// `refreshed` is what the refresher returned: `Some` carries the new token
/// set, `None` means the refresh call failed. On success the credentials are
/// built from the new access token and the new token set is handed back so the
/// caller can persist it under both the account-scoped and the legacy key
/// (persistence failures are the caller's to swallow). On failure nothing of
/// the stored state is to be mutated.
pub fn finish_oauth2_refresh(email: &str, refreshed: Option<TokenSet>) -> (r: Result<
    (Credentials, TokenSet),
    MailError,
>)
    ensures
        match r {
            Ok((credentials, to_persist)) => {
                &&& refreshed matches Some(t)
                &&& credentials matches Credentials::OAuth2 { user, access_token }
                    && user@ == email@ && access_token@ == t.access_token@
                &&& to_persist == t
            },
            Err(e) => refreshed is None && e == MailError::RefreshFailed,
        },
{
    match refreshed {
        Some(t) => {
            let credentials = Credentials::OAuth2 {
                user: email.to_owned(),
                access_token: t.access_token.clone(),
            };
            Ok((credentials, t))
        },
        None => Err(MailError::RefreshFailed),
    }
}

/// Build password credentials from the stored password, failing as
/// unauthenticated when none is stored.
pub fn plan_password_resolution(email: &str, password: Option<String>) -> (r: Result<
    Credentials,
    MailError,
>)
    ensures
        match r {
            Ok(credentials) => {
                &&& password matches Some(p)
                &&& credentials matches Credentials::Password { user, password: pw }
                    && user@ == email@ && pw@ == p@
            },
            Err(e) => password is None && e == MailError::Unauthenticated,
        },
{
    match password {
        Some(p) => Ok(Credentials::Password { user: email.to_owned(), password: p }),
        None => Err(MailError::Unauthenticated),
    }
}

/// An expired stored token is never returned as usable credentials: resolution
/// attempts a refresh, or fails demanding re-authentication; and a token with
/// more than the safety margin left never triggers a refresh.
pub proof fn lemma_expiry_gates_refresh(
    account_tokens: Option<TokenSet>,
    legacy_tokens: Option<TokenSet>,
    now: i64,
)
    requires
        spec_stored_tokens(account_tokens, legacy_tokens) is Some,
    ensures
        token_expired(spec_stored_tokens(account_tokens, legacy_tokens)->0, now)
            ==> oauth2_resolution_kind(account_tokens, legacy_tokens, now) is Refresh
            || oauth2_resolution_kind(account_tokens, legacy_tokens, now) is FailReauth,
        !token_expired(spec_stored_tokens(account_tokens, legacy_tokens)->0, now)
            ==> oauth2_resolution_kind(account_tokens, legacy_tokens, now) is UseStored,
{
}

/// An expired token set without a refresh token always demands
/// re-authentication; a refresh is never attempted for it.
pub proof fn lemma_no_refresh_token_means_reauth(
    account_tokens: Option<TokenSet>,
    legacy_tokens: Option<TokenSet>,
    now: i64,
)
    requires
        spec_stored_tokens(account_tokens, legacy_tokens) matches Some(t) && t.refresh_token
            is None && token_expired(t, now),
    ensures
        oauth2_resolution_kind(account_tokens, legacy_tokens, now) is FailReauth,
{
}

} // verus!
