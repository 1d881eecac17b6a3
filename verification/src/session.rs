//! The session handle cache: one reusable connection handle per account.
//!
//! Staleness is decided by credential expiry, never by handle age: for an
//! OAuth2 account the stored token is judged against the safety margin on
//! every lookup, even when a handle is cached, and a stale handle is evicted
//! before anything else happens. Handle construction is pure — no connection
//! is established here, so building a handle never blocks on the network.

use vstd::prelude::*;

use crate::credentials::{
    finish_oauth2_refresh, is_token_expired, plan_oauth2_resolution, plan_password_resolution,
    spec_stored_tokens, token_expired, Credentials, ResolvePlan, TokenSet, EXPIRY_MARGIN_SECS,
};
use crate::errors::MailError;
use crate::keys::str_eq;

verus! {

/// How an account authenticates.
#[derive(Clone, Copy, Debug, PartialEq, Eq, Structural)]
pub enum AuthKind {
    Password,
    OAuth2,
}

/// The provider identity handed to the token refresher.
#[derive(Clone, Copy, Debug, PartialEq, Eq, Structural)]
pub enum Provider {
    Gmail,
    Outlook,
    Other,
}

/// The provider label used by the token refresher; unknown providers fall
/// back to the default label.
pub open spec fn spec_provider_label(p: Provider) -> Seq<char> {
    match p {
        Provider::Gmail => "gmail"@,
        Provider::Outlook => "microsoft"@,
        Provider::Other => "gmail"@,
    }
}

/// Map a provider identity to its refresher label.
pub fn provider_label(p: &Provider) -> (r: &str)
    ensures
        r@ == spec_provider_label(*p),
{
    match p {
        Provider::Gmail => "gmail",
        Provider::Outlook => "microsoft",
        Provider::Other => "gmail",
    }
}

/// The server endpoints one session is bound to.
pub struct ServerConfig {
    pub imap_host: String,
    pub imap_port: u16,
    pub smtp_host: String,
    pub smtp_port: u16,
    pub use_tls: bool,
}

impl ServerConfig {
    /// Field-wise agreement between two configurations.
    pub open spec fn like(self, o: ServerConfig) -> bool {
        &&& self.imap_host@ == o.imap_host@
        &&& self.imap_port == o.imap_port
        &&& self.smtp_host@ == o.smtp_host@
        &&& self.smtp_port == o.smtp_port
        &&& self.use_tls == o.use_tls
    }

    /// Whether this is the account's server configuration, with TLS on.
    pub open spec fn is_for(self, a: Account) -> bool {
        &&& self.imap_host@ == a.imap_host@
        &&& self.imap_port == a.imap_port
        &&& self.smtp_host@ == a.smtp_host@
        &&& self.smtp_port == a.smtp_port
        &&& self.use_tls
    }
}

/// One mail account, as the account directory hands it to this core.
#[derive(Clone)]
pub struct Account {
    pub id: String,
    pub email: String,
    pub auth_kind: AuthKind,
    pub provider: Provider,
    pub imap_host: String,
    pub imap_port: u16,
    pub smtp_host: String,
    pub smtp_port: u16,
}

impl Account {
    /// The server configuration sessions for this account are built with.
    pub fn server_config(&self) -> (c: ServerConfig)
        ensures
            c.is_for(*self),
    {
        ServerConfig {
            imap_host: self.imap_host.clone(),
            imap_port: self.imap_port,
            smtp_host: self.smtp_host.clone(),
            smtp_port: self.smtp_port,
            use_tls: true,
        }
    }
}

impl Credentials {
    /// Field-wise agreement between two credential values.
    pub open spec fn like(self, o: Credentials) -> bool {
        match self {
            Credentials::Password { user, password } => o matches Credentials::Password {
                user: u2,
                password: p2,
            } && user@ == u2@ && password@ == p2@,
            Credentials::OAuth2 { user, access_token } => o matches Credentials::OAuth2 {
                user: u2,
                access_token: t2,
            } && user@ == u2@ && access_token@ == t2@,
        }
    }
}

/// A reusable connection descriptor bound to one account, one credential set
/// and one server configuration. The generation number distinguishes every
/// handle the cache ever created from every other.
pub struct SessionHandle {
    pub account_id: String,
    pub email: String,
    pub generation: u64,
    pub config: ServerConfig,
    pub credentials: Credentials,
}

impl SessionHandle {
    /// Field-wise agreement between two handles.
    pub open spec fn like(self, o: SessionHandle) -> bool {
        &&& self.account_id@ == o.account_id@
        &&& self.email@ == o.email@
        &&& self.generation == o.generation
        &&& self.config.like(o.config)
        &&& self.credentials.like(o.credentials)
    }

    /// A field-wise copy of this handle.
    pub fn duplicate(&self) -> (h: SessionHandle)
        ensures
            h.like(*self),
    {
        SessionHandle {
            account_id: self.account_id.clone(),
            email: self.email.clone(),
            generation: self.generation,
            config: ServerConfig {
                imap_host: self.config.imap_host.clone(),
                imap_port: self.config.imap_port,
                smtp_host: self.config.smtp_host.clone(),
                smtp_port: self.config.smtp_port,
                use_tls: self.config.use_tls,
            },
            credentials: match &self.credentials {
                Credentials::Password { user, password } => Credentials::Password {
                    user: user.clone(),
                    password: password.clone(),
                },
                Credentials::OAuth2 { user, access_token } => Credentials::OAuth2 {
                    user: user.clone(),
                    access_token: access_token.clone(),
                },
            },
        }
    }
}

/// Whether some cached handle is keyed by `id`.
pub open spec fn has_session(s: Seq<SessionHandle>, id: Seq<char>) -> bool {
    exists|i: int| 0 <= i < s.len() && s[i].account_id@ == id
}

/// The handle keyed by `id`; meaningful only under the cache invariant, which
/// makes that handle unique.
pub open spec fn session_at(s: Seq<SessionHandle>, id: Seq<char>) -> SessionHandle {
    s[choose|i: int| 0 <= i < s.len() && s[i].account_id@ == id]
}

/// Handles for every other account are carried over unchanged between two
/// cache states.
pub open spec fn preserved_except(
    a: Seq<SessionHandle>,
    b: Seq<SessionHandle>,
    id: Seq<char>,
) -> bool {
    &&& forall|k: int|
        0 <= k < b.len() && b[k].account_id@ != id ==> a.contains(#[trigger] b[k])
    &&& forall|k: int|
        0 <= k < a.len() && a[k].account_id@ != id ==> b.contains(#[trigger] a[k])
}

/// A stored token set (after the legacy fallback) that is missing or expired
/// makes an OAuth2 account's cached handle stale.
pub open spec fn oauth_stale(
    auth: AuthKind,
    account_tokens: Option<TokenSet>,
    legacy_tokens: Option<TokenSet>,
    now: i64,
) -> bool {
    auth is OAuth2 && match spec_stored_tokens(account_tokens, legacy_tokens) {
        None => true,
        Some(t) => token_expired(t, now),
    }
}

/// The deref of an optional token reference, for use in contracts.
pub open spec fn opt_tokens(o: Option<&TokenSet>) -> Option<TokenSet> {
    match o {
        Some(t) => Some(*t),
        None => None,
    }
}

/// What `get_or_create_session` came back with.
pub enum SessionOutcome {
    /// A cached handle was still valid; no credential resolution happened.
    Cached { handle: SessionHandle },
    /// No valid handle was cached; credentials were resolved and a new handle
    /// was created and cached.
    Created { handle: SessionHandle },
    /// The stored token is expired but refreshable: the caller must run the
    /// token refresher and then install the refreshed session.
    RefreshNeeded { refresh_token: String },
    /// Resolution failed; nothing was created.
    Failed { error: MailError },
}

/// The session handle cache, keyed by account id.
pub struct SessionCache {
    entries: Vec<SessionHandle>,
    next_generation: u64,
}

impl SessionCache {
    /// The cached handles.
    pub closed spec fn sessions(self) -> Seq<SessionHandle> {
        self.entries@
    }

    /// The generation number the next created handle will carry.
    pub closed spec fn next_gen(self) -> u64 {
        self.next_generation
    }

    /// Cache invariant: account ids are unique, and every cached handle's
    /// generation lies below the next one to be handed out.
    pub open spec fn wf(self) -> bool {
        &&& forall|i: int, j: int|
            0 <= i < j < self.sessions().len() ==> (#[trigger] self.sessions()[i]).account_id@
                != (#[trigger] self.sessions()[j]).account_id@
        &&& forall|i: int|
            0 <= i < self.sessions().len() ==> (#[trigger] self.sessions()[i]).generation
                < self.next_gen()
    }

    /// Generation numbers have not been exhausted.
    pub open spec fn can_allocate(self) -> bool {
        self.next_gen() < u64::MAX
    }

    /// An empty cache.
    pub fn new() -> (c: SessionCache)
        ensures
            c.wf(),
            c.can_allocate(),
            c.sessions().len() == 0,
            c.next_gen() == 0,
    {
        SessionCache { entries: Vec::new(), next_generation: 0 }
    }

    /// Whether another generation number can still be handed out.
    pub fn can_allocate_more(&self) -> (r: bool)
        ensures
            r == self.can_allocate(),
    {
        self.next_generation < u64::MAX
    }

    /// How many handles are cached.
    pub fn session_count(&self) -> (n: usize)
        ensures
            n == self.sessions().len(),
    {
        self.entries.len()
    }

    /// Whether a handle is cached for the account.
    pub fn has_cached_session(&self, account_id: &str) -> (r: bool)
        ensures
            r == has_session(self.sessions(), account_id@),
    {
        match self.find_index(account_id) {
            Some(_) => true,
            None => false,
        }
    }

    /// The position of the handle keyed by `account_id`, if any.
    fn find_index(&self, account_id: &str) -> (r: Option<usize>)
        ensures
            match r {
                Some(i) => i < self.sessions().len() && self.sessions()[i as int].account_id@
                    == account_id@,
                None => !has_session(self.sessions(), account_id@),
            },
    {
        let n = self.entries.len();
        let mut i: usize = 0;
        while i < n
            invariant
                i <= n,
                n == self.sessions().len(),
                forall|k: int| 0 <= k < i ==> (#[trigger] self.sessions()[k]).account_id@
                    != account_id@,
            decreases n - i,
        {
            if str_eq(self.entries[i].account_id.as_str(), account_id) {
                return Some(i);
            }
            i = i + 1;
        }
        None
    }

    /// Drop the handle cached for `account_id`, if one is cached.
    pub fn evict_session(&mut self, account_id: &str) -> (evicted: bool)
        requires
            old(self).wf(),
        ensures
            final(self).wf(),
            final(self).next_gen() == old(self).next_gen(),
            !has_session(final(self).sessions(), account_id@),
            evicted == has_session(old(self).sessions(), account_id@),
            evicted ==> exists|i: int|
                0 <= i < old(self).sessions().len() && (#[trigger] old(self).sessions()[i]).account_id@
                    == account_id@ && final(self).sessions() == old(self).sessions().remove(i),
            !evicted ==> final(self).sessions() == old(self).sessions(),
            preserved_except(old(self).sessions(), final(self).sessions(), account_id@),
    {
        match self.find_index(account_id) {
            Some(i) => {
                let ghost prev = self.entries@;
                self.entries.remove(i);
                proof {
                    assert forall|p: int, q: int|
                        0 <= p < q < self.sessions().len() implies (#[trigger] self.sessions()[p]).account_id@
                        != (#[trigger] self.sessions()[q]).account_id@ by {
                        let p0 = if p < i { p } else { p + 1 };
                        let q0 = if q < i { q } else { q + 1 };
                        assert(prev[p0] == self.sessions()[p]);
                        assert(prev[q0] == self.sessions()[q]);
                    }
                    assert forall|k: int|
                        0 <= k < self.sessions().len() implies (#[trigger] self.sessions()[k]).account_id@
                        != account_id@ by {
                        let k0 = if k < i { k } else { k + 1 };
                        assert(prev[k0] == self.sessions()[k]);
                        if k0 != i as int {
                            if k0 < i { assert(prev[k0].account_id@ != prev[i as int].account_id@);
                            } else { assert(prev[i as int].account_id@ != prev[k0].account_id@); }
                        }
                    }
                    assert forall|k: int|
                        0 <= k < self.sessions().len() implies prev.contains(#[trigger] self.sessions()[k]) by {
                        let k0 = if k < i { k } else { k + 1 };
                        assert(prev[k0] == self.sessions()[k]);
                    }
                    assert forall|k: int|
                        0 <= k < prev.len() && (#[trigger] prev[k]).account_id@ != account_id@
                        implies self.sessions().contains(prev[k]) by {
                        let k1 = if k < i { k } else { k - 1 };
                        assert(self.sessions()[k1] == prev[k]);
                    }
                }
                true
            },
            None => false,
        }
    }

    /// Create a handle for the account with the given credentials, cache it
    /// and return a copy of it.
    fn create_session(&mut self, account: &Account, credentials: Credentials) -> (h: SessionHandle)
        requires
            old(self).wf(),
            old(self).can_allocate(),
            !has_session(old(self).sessions(), account.id@),
        ensures
            final(self).wf(),
            final(self).next_gen() == old(self).next_gen() + 1,
            h.generation == old(self).next_gen(),
            h.account_id@ == account.id@,
            h.email@ == account.email@,
            h.config.is_for(*account),
            h.credentials.like(credentials),
            final(self).sessions() == old(self).sessions().push(
                session_at(final(self).sessions(), account.id@),
            ),
            has_session(final(self).sessions(), account.id@),
            session_at(final(self).sessions(), account.id@).like(h),
            session_at(final(self).sessions(), account.id@).generation == old(self).next_gen(),
            preserved_except(old(self).sessions(), final(self).sessions(), account.id@),
    {
        let g = self.next_generation;
        let handle = SessionHandle {
            account_id: account.id.clone(),
            email: account.email.clone(),
            generation: g,
            config: account.server_config(),
            credentials,
        };
        let copy = handle.duplicate();
        self.entries.push(handle);
        self.next_generation = g + 1;
        proof {
            let s = self.sessions();
            let n = s.len() - 1;
            assert(s[n].account_id@ == account.id@);
            assert(has_session(s, account.id@));
            let j = choose|j: int| 0 <= j < s.len() && s[j].account_id@ == account.id@;
            if j < n {
                assert(old(self).sessions()[j] == s[j]);
                assert(has_session(old(self).sessions(), account.id@));
            }
            assert(session_at(s, account.id@) == s[n]);
            assert forall|k: int|
                0 <= k < s.len() && (#[trigger] s[k]).account_id@ != account.id@
                implies old(self).sessions().contains(s[k]) by {
                assert(old(self).sessions()[k] == s[k]);
            }
            assert forall|k: int|
                0 <= k < old(self).sessions().len() implies s.contains(
                #[trigger] old(self).sessions()[k]) by {
                assert(s[k] == old(self).sessions()[k]);
            }
        }
        copy
    }

    /// Get the cached session handle for the account, or create one.
    ///
    /// The caller hands in what the credential store currently holds for the
    /// account — the stored password for password accounts, the account-scoped
    /// and legacy token sets for OAuth2 accounts — and the current time in
    /// seconds. For an OAuth2 account, token expiry is checked even when a
    /// handle is cached, and an expired token evicts the cached handle before
    /// anything else; a cached handle is returned only when the stored token
    /// still has more than the safety margin left. `Cached` is the one outcome
    /// under which no credential resolution took place.
    pub fn get_or_create_session(
        &mut self,
        account: &Account,
        password: Option<String>,
        account_tokens: Option<&TokenSet>,
        legacy_tokens: Option<&TokenSet>,
        now: i64,
    ) -> (r: SessionOutcome)
        requires
            old(self).wf(),
            old(self).can_allocate(),
            now + EXPIRY_MARGIN_SECS <= i64::MAX,
        ensures
            final(self).wf(),
            ({
                let id = account.id@;
                let acct = opt_tokens(account_tokens);
                let leg = opt_tokens(legacy_tokens);
                let stale = oauth_stale(account.auth_kind, acct, leg, now);
                let stored = spec_stored_tokens(acct, leg);
                let hit = !stale && has_session(old(self).sessions(), id);
                match r {
                    SessionOutcome::Cached { handle } => {
                        &&& hit
                        &&& handle.like(session_at(old(self).sessions(), id))
                        &&& final(self).sessions() == old(self).sessions()
                        &&& final(self).next_gen() == old(self).next_gen()
                    },
                    SessionOutcome::Created { handle } => {
                        &&& !hit
                        &&& handle.generation == old(self).next_gen()
                        &&& handle.account_id@ == id
                        &&& handle.email@ == account.email@
                        &&& handle.config.is_for(*account)
                        &&& match account.auth_kind {
                            AuthKind::Password => password matches Some(p)
                                && handle.credentials matches Credentials::Password {
                                user,
                                password: pw,
                            } && user@ == account.email@ && pw@ == p@,
                            AuthKind::OAuth2 => !stale && (stored matches Some(t)
                                && handle.credentials matches Credentials::OAuth2 {
                                user,
                                access_token,
                            } && user@ == account.email@ && access_token@ == t.access_token@),
                        }
                        &&& has_session(final(self).sessions(), id)
                        &&& session_at(final(self).sessions(), id).like(handle)
                        &&& final(self).next_gen() == old(self).next_gen() + 1
                        &&& preserved_except(old(self).sessions(), final(self).sessions(), id)
                    },
                    SessionOutcome::RefreshNeeded { refresh_token } => {
                        &&& account.auth_kind is OAuth2
                        &&& stale
                        &&& stored matches Some(t) && t.refresh_token matches Some(rt)
                            && refresh_token@ == rt@
                        &&& !has_session(final(self).sessions(), id)
                        &&& final(self).next_gen() == old(self).next_gen()
                        &&& preserved_except(old(self).sessions(), final(self).sessions(), id)
                    },
                    SessionOutcome::Failed { error } => {
                        &&& !hit
                        &&& match account.auth_kind {
                            AuthKind::Password => error == MailError::Unauthenticated && password
                                is None && final(self).sessions() == old(self).sessions(),
                            AuthKind::OAuth2 => {
                                &&& stale
                                &&& (if stored is None {
                                    error == MailError::Unauthenticated
                                } else {
                                    error == MailError::ReauthRequired && stored->0.refresh_token
                                        is None
                                })
                                &&& !has_session(final(self).sessions(), id)
                                &&& preserved_except(old(self).sessions(), final(self).sessions(), id)
                            },
                        }
                        &&& final(self).next_gen() == old(self).next_gen()
                    },
                }
            }),
    {
        // Judge staleness by credential expiry, even when a handle is cached.
        let stale: bool = match account.auth_kind {
            AuthKind::OAuth2 => match account_tokens {
                Some(t) => is_token_expired(t, now),
                None => match legacy_tokens {
                    Some(t) => is_token_expired(t, now),
                    None => true,
                },
            },
            AuthKind::Password => false,
        };
        if stale {
            self.evict_session(account.id.as_str());
        }
        if let Some(i) = self.find_index(account.id.as_str()) {
            proof {
                lemma_session_unique(*self, i as int, account.id@);
            }
            return SessionOutcome::Cached { handle: self.entries[i].duplicate() };
        }
        match account.auth_kind {
            AuthKind::Password => match plan_password_resolution(account.email.as_str(), password) {
                Ok(credentials) => SessionOutcome::Created {
                    handle: self.create_session(account, credentials),
                },
                Err(error) => SessionOutcome::Failed { error },
            },
            AuthKind::OAuth2 => match plan_oauth2_resolution(
                account.email.as_str(),
                account_tokens,
                legacy_tokens,
                now,
            ) {
                ResolvePlan::Ready { credentials } => SessionOutcome::Created {
                    handle: self.create_session(account, credentials),
                },
                ResolvePlan::RefreshNeeded { refresh_token } => SessionOutcome::RefreshNeeded {
                    refresh_token,
                },
                ResolvePlan::Failed { error } => SessionOutcome::Failed { error },
            },
        }
    }

    /// After the token refresher ran, build credentials from its outcome,
    /// cache a new handle and return it together with the token set the
    /// caller must persist under both the account-scoped and the legacy key.
    /// A failed refresh creates nothing and leaves the cache unchanged.
    pub fn install_refreshed_session(&mut self, account: &Account, refreshed: Option<TokenSet>) -> (r:
        Result<(SessionHandle, TokenSet), MailError>)
        requires
            old(self).wf(),
            old(self).can_allocate(),
            !has_session(old(self).sessions(), account.id@),
        ensures
            final(self).wf(),
            match r {
                Ok((handle, to_persist)) => {
                    &&& refreshed matches Some(t)
                    &&& to_persist == t
                    &&& handle.generation == old(self).next_gen()
                    &&& handle.account_id@ == account.id@
                    &&& handle.email@ == account.email@
                    &&& handle.config.is_for(*account)
                    &&& handle.credentials matches Credentials::OAuth2 { user, access_token }
                        && user@ == account.email@ && access_token@ == t.access_token@
                    &&& has_session(final(self).sessions(), account.id@)
                    &&& session_at(final(self).sessions(), account.id@).like(handle)
                    &&& preserved_except(old(self).sessions(), final(self).sessions(), account.id@)
                },
                Err(e) => {
                    &&& refreshed is None
                    &&& e == MailError::RefreshFailed
                    &&& final(self).sessions() == old(self).sessions()
                },
            },
    {
        match finish_oauth2_refresh(account.email.as_str(), refreshed) {
            Ok((credentials, to_persist)) => {
                let handle = self.create_session(account, credentials);
                Ok((handle, to_persist))
            },
            Err(e) => Err(e),
        }
    }
}

/// Under the cache invariant the handle keyed by an id is the one found at
/// any index whose handle carries that id.
proof fn lemma_session_unique(c: SessionCache, i: int, id: Seq<char>)
    requires
        c.wf(),
        0 <= i < c.sessions().len(),
        c.sessions()[i].account_id@ == id,
    ensures
        has_session(c.sessions(), id),
        session_at(c.sessions(), id) == c.sessions()[i],
{
    let s = c.sessions();
    assert(has_session(s, id));
    let j = choose|j: int| 0 <= j < s.len() && s[j].account_id@ == id;
    if i < j {
        assert(s[i].account_id@ != s[j].account_id@);
    } else if j < i {
        assert(s[j].account_id@ != s[i].account_id@);
    }
}

} // verus!
