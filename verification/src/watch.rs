//! The watch supervisor's registry and the folder watcher state machine.
//!
//! The registry is the single source of truth for which (account, folder)
//! pairs are being watched: one registration per pair, each carrying the
//! token that cancels its watcher. Starting monitoring for an account always
//! stops the prior set first, so registrations for an account are replaced,
//! never appended to. The watcher itself is a pure transition function from
//! state and event to next state and action; the loop that connects, waits
//! and sleeps runs outside this core and feeds events in.

use vstd::prelude::*;

use crate::keys::str_eq;

verus! {

/// Payload of the notification emitted when new mail arrives.
pub struct NewMailEvent {
    pub account_id: String,
    pub folder: String,
}

/// Longest wait for one await-change call, in seconds: the watch must be
/// re-issued every 29 minutes to respect the protocol's session bound.
pub const IDLE_REISSUE_SECS: u64 = 1740;

/// Fixed delay before a watcher retries after any failure, in seconds.
pub const RETRY_DELAY_SECS: u64 = 30;

/// One registered watcher: the (account, folder) pair it watches and the
/// token that signals its cancellation.
pub struct WatcherRegistration {
    pub account_id: String,
    pub folder: String,
    pub token_id: u64,
}

/// The key a registration is filed under.
pub open spec fn registration_key(r: WatcherRegistration) -> Seq<char> {
    r.account_id@.push(':') + r.folder@
}

/// The prefix that selects every registration of one account.
pub open spec fn account_key_prefix(account_id: Seq<char>) -> Seq<char> {
    account_id.push(':')
}

/// Whether a watcher for the (account, folder) pair is registered.
pub open spec fn has_watcher(s: Seq<WatcherRegistration>, a: Seq<char>, f: Seq<char>) -> bool {
    exists|i: int| 0 <= i < s.len() && s[i].account_id@ == a && s[i].folder@ == f
}

/// Whether any watcher of the account is registered.
pub open spec fn has_account_watcher(s: Seq<WatcherRegistration>, a: Seq<char>) -> bool {
    exists|i: int| 0 <= i < s.len() && s[i].account_id@ == a
}

/// The registration of the (account, folder) pair; meaningful only under the
/// registry invariant, which makes it unique.
pub open spec fn watcher_at(
    s: Seq<WatcherRegistration>,
    a: Seq<char>,
    f: Seq<char>,
) -> WatcherRegistration {
    s[choose|i: int| 0 <= i < s.len() && s[i].account_id@ == a && s[i].folder@ == f]
}

/// Registrations of every other account are carried over unchanged between
/// two registry states.
pub open spec fn others_preserved(
    a: Seq<WatcherRegistration>,
    b: Seq<WatcherRegistration>,
    id: Seq<char>,
) -> bool {
    &&& forall|k: int|
        0 <= k < b.len() && b[k].account_id@ != id ==> a.contains(#[trigger] b[k])
    &&& forall|k: int|
        0 <= k < a.len() && a[k].account_id@ != id ==> b.contains(#[trigger] a[k])
}

/// Whether some registration of the account carries this cancellation token.
pub open spec fn account_token(s: Seq<WatcherRegistration>, a: Seq<char>, t: u64) -> bool {
    exists|i: int| 0 <= i < s.len() && s[i].account_id@ == a && s[i].token_id == t
}

/// Whether some registration carries this cancellation token.
pub open spec fn registered_token(s: Seq<WatcherRegistration>, t: u64) -> bool {
    exists|i: int| 0 <= i < s.len() && s[i].token_id == t
}

/// The registry of active folder watchers.
pub struct WatchRegistry {
    entries: Vec<WatcherRegistration>,
    next_token: u64,
}

impl WatchRegistry {
    /// The active registrations.
    pub closed spec fn regs(self) -> Seq<WatcherRegistration> {
        self.entries@
    }

    /// The cancellation token the next registration will carry.
    pub closed spec fn next_tok(self) -> u64 {
        self.next_token
    }

    /// Registry invariant: (account, folder) pairs are unique, tokens are
    /// unique, and every token lies below the next one to be handed out.
    pub open spec fn wf(self) -> bool {
        &&& forall|i: int, j: int|
            0 <= i < j < self.regs().len() ==> !((#[trigger] self.regs()[i]).account_id@
                == (#[trigger] self.regs()[j]).account_id@ && self.regs()[i].folder@
                == self.regs()[j].folder@)
        &&& forall|i: int, j: int|
            0 <= i < j < self.regs().len() ==> (#[trigger] self.regs()[i]).token_id
                != (#[trigger] self.regs()[j]).token_id
        &&& forall|i: int|
            0 <= i < self.regs().len() ==> (#[trigger] self.regs()[i]).token_id < self.next_tok()
    }

    /// An empty registry.
    pub fn new() -> (r: WatchRegistry)
        ensures
            r.wf(),
            r.regs().len() == 0,
            r.next_tok() == 0,
    {
        WatchRegistry { entries: Vec::new(), next_token: 0 }
    }

    /// Whether at least `n` more cancellation tokens can be handed out.
    pub fn tokens_left_at_least(&self, n: u64) -> (r: bool)
        ensures
            r == (self.next_tok() + n <= u64::MAX),
    {
        self.next_token <= u64::MAX - n
    }

    /// How many watchers are registered in all.
    pub fn watcher_count(&self) -> (n: usize)
        ensures
            n == self.regs().len(),
    {
        self.entries.len()
    }

    /// Whether a watcher for the (account, folder) pair is registered.
    pub fn is_watching(&self, account_id: &str, folder: &str) -> (r: bool)
        ensures
            r == has_watcher(self.regs(), account_id@, folder@),
    {
        let n = self.entries.len();
        let mut i: usize = 0;
        while i < n
            invariant
                i <= n,
                n == self.regs().len(),
                forall|k: int|
                    0 <= k < i ==> !((#[trigger] self.regs()[k]).account_id@ == account_id@
                        && self.regs()[k].folder@ == folder@),
            decreases n - i,
        {
            if str_eq(self.entries[i].account_id.as_str(), account_id) && str_eq(
                self.entries[i].folder.as_str(),
                folder,
            ) {
                return true;
            }
            i = i + 1;
        }
        false
    }

    /// Stop monitoring for an account: remove every registration keyed by the
    /// account and hand back the cancellation tokens to signal. Signalling is
    /// fire-and-forget; nothing waits for the watchers to exit.
    pub fn stop_monitoring(&mut self, account_id: &str) -> (stopped: Vec<u64>)
        requires
            old(self).wf(),
        ensures
            final(self).wf(),
            final(self).next_tok() == old(self).next_tok(),
            !has_account_watcher(final(self).regs(), account_id@),
            others_preserved(old(self).regs(), final(self).regs(), account_id@),
            forall|k: int|
                0 <= k < old(self).regs().len() && (#[trigger] old(self).regs()[k]).account_id@
                    == account_id@ ==> stopped@.contains(old(self).regs()[k].token_id),
            forall|k: int|
                0 <= k < stopped@.len() ==> account_token(
                    old(self).regs(),
                    account_id@,
                    #[trigger] stopped@[k],
                ),
    {
        let ghost prev = self.entries@;
        let mut stopped: Vec<u64> = Vec::new();
        let mut i: usize = 0;
        while i < self.entries.len()
            invariant
                i <= self.entries.len(),
                self.wf(),
                self.next_tok() == old(self).next_tok(),
                forall|k: int| 0 <= k < i ==> (#[trigger] self.regs()[k]).account_id@
                    != account_id@,
                forall|k: int|
                    0 <= k < self.regs().len() ==> prev.contains(#[trigger] self.regs()[k]),
                forall|k: int|
                    0 <= k < prev.len() && (#[trigger] prev[k]).account_id@ != account_id@
                        ==> self.regs().contains(prev[k]),
                forall|k: int|
                    0 <= k < prev.len() && (#[trigger] prev[k]).account_id@ == account_id@
                        ==> self.regs().contains(prev[k]) || stopped@.contains(prev[k].token_id),
                forall|k: int|
                    0 <= k < stopped@.len() ==> account_token(
                        prev,
                        account_id@,
                        #[trigger] stopped@[k],
                    ),
            decreases self.entries.len() - i,
        {
            if str_eq(self.entries[i].account_id.as_str(), account_id) {
                let ghost before = self.regs();
                let ghost stopped_old = stopped@;
                let removed = self.entries.remove(i);
                stopped.push(removed.token_id);
                proof {
                    assert(prev.contains(removed));
                    assert forall|p: int, q: int|
                        0 <= p < q < self.regs().len() implies !((#[trigger] self.regs()[p]).account_id@
                        == (#[trigger] self.regs()[q]).account_id@ && self.regs()[p].folder@
                        == self.regs()[q].folder@) by {
                        let p0 = if p < i { p } else { p + 1 };
                        let q0 = if q < i { q } else { q + 1 };
                        assert(before[p0] == self.regs()[p]);
                        assert(before[q0] == self.regs()[q]);
                    }
                    assert forall|p: int, q: int|
                        0 <= p < q < self.regs().len() implies (#[trigger] self.regs()[p]).token_id
                        != (#[trigger] self.regs()[q]).token_id by {
                        let p0 = if p < i { p } else { p + 1 };
                        let q0 = if q < i { q } else { q + 1 };
                        assert(before[p0] == self.regs()[p]);
                        assert(before[q0] == self.regs()[q]);
                    }
                    assert forall|k: int|
                        0 <= k < self.regs().len() implies (#[trigger] self.regs()[k]).token_id
                        < self.next_tok() by {
                        let k0 = if k < i { k } else { k + 1 };
                        assert(before[k0] == self.regs()[k]);
                    }
                    assert forall|k: int|
                        0 <= k < self.regs().len() implies prev.contains(
                        #[trigger] self.regs()[k]) by {
                        let k0 = if k < i { k } else { k + 1 };
                        assert(before[k0] == self.regs()[k]);
                    }
                    assert forall|k: int|
                        0 <= k < prev.len() && (#[trigger] prev[k]).account_id@ != account_id@
                        implies self.regs().contains(prev[k]) by {
                        let m = choose|m: int| 0 <= m < before.len() && before[m] == prev[k];
                        assert(m != i);
                        let m1 = if m < i { m } else { m - 1 };
                        assert(self.regs()[m1] == before[m]);
                    }
                    assert forall|k: int|
                        0 <= k < prev.len() && (#[trigger] prev[k]).account_id@ == account_id@
                        implies self.regs().contains(prev[k]) || stopped@.contains(
                        prev[k].token_id) by {
                        if before.contains(prev[k]) {
                            let m = choose|m: int| 0 <= m < before.len() && before[m] == prev[k];
                            if m == i {
                                assert(stopped@[stopped@.len() - 1] == prev[k].token_id);
                                assert(stopped@.contains(prev[k].token_id));
                            } else {
                                let m1 = if m < i { m } else { m - 1 };
                                assert(self.regs()[m1] == before[m]);
                            }
                        } else {
                            let w = choose|w: int|
                                0 <= w < stopped_old.len() && stopped_old[w] == prev[k].token_id;
                            assert(stopped@[w] == prev[k].token_id);
                            assert(stopped@.contains(prev[k].token_id));
                        }
                    }
                    assert forall|k: int|
                        0 <= k < stopped@.len() implies account_token(
                        prev,
                        account_id@,
                        #[trigger] stopped@[k],
                    ) by {
                        if k < stopped_old.len() {
                            assert(stopped@[k] == stopped_old[k]);
                        } else {
                            assert(stopped@[k] == removed.token_id);
                            let m = choose|m: int| 0 <= m < prev.len() && prev[m] == removed;
                            assert(0 <= m < prev.len() && prev[m].account_id@ == account_id@
                                && prev[m].token_id == stopped@[k]);
                        }
                    }
                }
            } else {
                i = i + 1;
            }
        }
        proof {
            assert forall|k: int|
                0 <= k < prev.len() && (#[trigger] prev[k]).account_id@ == account_id@
                implies stopped@.contains(prev[k].token_id) by {
                if self.regs().contains(prev[k]) {
                    let m = choose|m: int| 0 <= m < self.regs().len() && self.regs()[m] == prev[k];
                    assert(self.regs()[m].account_id@ != account_id@);
                }
            }
        }
        stopped
    }

    /// Stop every watcher of every account; used at shutdown.
    pub fn stop_all_monitoring(&mut self) -> (stopped: Vec<u64>)
        requires
            old(self).wf(),
        ensures
            final(self).wf(),
            final(self).regs().len() == 0,
            forall|k: int|
                0 <= k < old(self).regs().len() ==> stopped@.contains(
                    (#[trigger] old(self).regs()[k]).token_id,
                ),
            forall|k: int|
                0 <= k < stopped@.len() ==> registered_token(
                    old(self).regs(),
                    #[trigger] stopped@[k],
                ),
    {
        let mut stopped: Vec<u64> = Vec::new();
        let n = self.entries.len();
        let mut i: usize = 0;
        while i < n
            invariant
                i <= n,
                n == self.regs().len(),
                self.wf(),
                stopped@.len() == i,
                forall|k: int| 0 <= k < i ==> stopped@[k] == (#[trigger] self.regs()[k]).token_id,
            decreases n - i,
        {
            stopped.push(self.entries[i].token_id);
            i = i + 1;
        }
        proof {
            assert forall|k: int|
                0 <= k < old(self).regs().len() implies stopped@.contains(
                (#[trigger] old(self).regs()[k]).token_id) by {
                assert(stopped@[k] == old(self).regs()[k].token_id);
            }
            assert forall|k: int|
                0 <= k < stopped@.len() implies registered_token(
                old(self).regs(),
                #[trigger] stopped@[k],
            ) by {
                assert(0 <= k < old(self).regs().len() && old(self).regs()[k].token_id
                    == stopped@[k]);
            }
        }
        self.entries.clear();
        stopped
    }

    /// Start monitoring the given folders for an account.
    ///
    /// Any prior registrations of the account are stopped first — their
    /// cancellation tokens come back in `stopped` — and then exactly one
    /// watcher per folder is registered; `started[i]` is the cancellation
    /// token of the watcher for `folders[i]`.
    pub fn start_monitoring(&mut self, account_id: &str, folders: &Vec<String>) -> (r: (
        Vec<u64>,
        Vec<u64>,
    ))
        requires
            old(self).wf(),
            old(self).next_tok() + folders@.len() <= u64::MAX,
            forall|p: int, q: int|
                0 <= p < q < folders@.len() ==> (#[trigger] folders@[p])@
                    != (#[trigger] folders@[q])@,
        ensures
            final(self).wf(),
            ({
                let (stopped, started) = r;
                &&& forall|f: Seq<char>|
                    #[trigger] has_watcher(final(self).regs(), account_id@, f) <==> exists|j: int|
                        0 <= j < folders@.len() && (#[trigger] folders@[j])@ == f
                &&& started@.len() == folders@.len()
                &&& forall|j: int|
                    0 <= j < folders@.len() ==> has_watcher(
                        final(self).regs(),
                        account_id@,
                        (#[trigger] folders@[j])@,
                    ) && watcher_at(final(self).regs(), account_id@, folders@[j]@).token_id
                        == started@[j]
                &&& others_preserved(old(self).regs(), final(self).regs(), account_id@)
                &&& forall|k: int|
                    0 <= k < old(self).regs().len() && (#[trigger] old(
                        self,
                    ).regs()[k]).account_id@ == account_id@ ==> stopped@.contains(
                        old(self).regs()[k].token_id,
                    )
            }),
    {
        let ghost orig = self.regs();
        let stopped = self.stop_monitoring(account_id);
        let ghost base = self.regs();
        let mut started: Vec<u64> = Vec::new();
        let n = folders.len();
        let mut idx: usize = 0;
        while idx < n
            invariant
                idx <= n,
                n == folders@.len(),
                self.wf(),
                self.next_tok() == old(self).next_tok() + idx,
                old(self).next_tok() + n <= u64::MAX,
                started@.len() == idx,
                forall|p: int, q: int|
                    0 <= p < q < folders@.len() ==> (#[trigger] folders@[p])@
                        != (#[trigger] folders@[q])@,
                !has_account_watcher(base, account_id@),
                forall|f: Seq<char>|
                    #[trigger] has_watcher(self.regs(), account_id@, f) <==> exists|j: int|
                        0 <= j < idx && (#[trigger] folders@[j])@ == f,
                forall|j: int|
                    0 <= j < idx ==> has_watcher(
                        self.regs(),
                        account_id@,
                        (#[trigger] folders@[j])@,
                    ) && watcher_at(self.regs(), account_id@, folders@[j]@).token_id
                        == started@[j],
                forall|k: int|
                    0 <= k < self.regs().len() && (#[trigger] self.regs()[k]).account_id@
                        != account_id@ ==> base.contains(self.regs()[k]),
                forall|k: int|
                    0 <= k < base.len() ==> self.regs().contains(#[trigger] base[k]),
            decreases n - idx,
        {
            let tok = self.next_token;
            let ghost before = self.regs();
            let entry = WatcherRegistration {
                account_id: account_id.to_owned(),
                folder: folders[idx].clone(),
                token_id: tok,
            };
            self.entries.push(entry);
            self.next_token = tok + 1;
            started.push(tok);
            proof {
                let s = self.regs();
                let m = s.len() - 1;
                assert(s[m].account_id@ == account_id@ && s[m].folder@ == folders@[idx as int]@);
                assert forall|p: int, q: int|
                    0 <= p < q < s.len() implies !((#[trigger] s[p]).account_id@
                    == (#[trigger] s[q]).account_id@ && s[p].folder@ == s[q].folder@) by {
                    if q == m {
                        if s[p].account_id@ == account_id@ && s[p].folder@
                            == folders@[idx as int]@ {
                            assert(has_watcher(before, account_id@, folders@[idx as int]@));
                        }
                    }
                }
                assert forall|f: Seq<char>|
                    #[trigger] has_watcher(s, account_id@, f) implies exists|j: int|
                    0 <= j < idx + 1 && (#[trigger] folders@[j])@ == f by {
                    let w = choose|w: int|
                        0 <= w < s.len() && s[w].account_id@ == account_id@ && s[w].folder@ == f;
                    if w < m {
                        assert(has_watcher(before, account_id@, f));
                    } else {
                        assert(folders@[idx as int]@ == f);
                    }
                }
                assert forall|j: int|
                    0 <= j < idx + 1 implies has_watcher(s, account_id@, (#[trigger] folders@[j])@)
                    && watcher_at(s, account_id@, folders@[j]@).token_id == started@[j] by {
                    if j < idx {
                        assert(has_watcher(before, account_id@, folders@[j]@));
                        let w0 = choose|w: int|
                            0 <= w < before.len() && before[w].account_id@ == account_id@
                                && before[w].folder@ == folders@[j]@;
                        assert(s[w0] == before[w0]);
                        assert(has_watcher(s, account_id@, folders@[j]@));
                        let w1 = choose|w: int|
                            0 <= w < s.len() && s[w].account_id@ == account_id@ && s[w].folder@
                                == folders@[j]@;
                        if w1 < w0 {
                            assert(!(s[w1].account_id@ == s[w0].account_id@ && s[w1].folder@
                                == s[w0].folder@));
                        } else if w0 < w1 {
                            assert(!(s[w0].account_id@ == s[w1].account_id@ && s[w0].folder@
                                == s[w1].folder@));
                        }
                        assert(watcher_at(s, account_id@, folders@[j]@) == before[w0]);
                        assert(watcher_at(before, account_id@, folders@[j]@) == before[w0]);
                    } else {
                        assert(has_watcher(s, account_id@, folders@[j]@));
                        let w1 = choose|w: int|
                            0 <= w < s.len() && s[w].account_id@ == account_id@ && s[w].folder@
                                == folders@[j]@;
                        if w1 < m {
                            assert(has_watcher(before, account_id@, folders@[j]@));
                        }
                        assert(watcher_at(s, account_id@, folders@[j]@) == s[m]);
                    }
                }
                assert forall|k: int|
                    0 <= k < base.len() implies s.contains(#[trigger] base[k]) by {
                    assert(before.contains(base[k]));
                    let w = choose|w: int| 0 <= w < before.len() && before[w] == base[k];
                    assert(s[w] == before[w]);
                }
            }
            idx = idx + 1;
        }
        (stopped, started)
    }
}

/// The fixed set of folders monitored for every account.
pub fn monitored_folders() -> (r: Vec<String>)
    ensures
        r@.len() == 5,
        r@[0]@ == "INBOX"@,
        r@[1]@ == "Sent"@,
        r@[2]@ == "Drafts"@,
        r@[3]@ == "Trash"@,
        r@[4]@ == "Spam"@,
        forall|p: int, q: int|
            0 <= p < q < r@.len() ==> (#[trigger] r@[p])@ != (#[trigger] r@[q])@,
{
    let mut v: Vec<String> = Vec::new();
    v.push("INBOX".to_owned());
    v.push("Sent".to_owned());
    v.push("Drafts".to_owned());
    v.push("Trash".to_owned());
    v.push("Spam".to_owned());
    proof {
        reveal_strlit("INBOX");
        reveal_strlit("Sent");
        reveal_strlit("Drafts");
        reveal_strlit("Trash");
        reveal_strlit("Spam");
        assert("INBOX"@[0] != "Trash"@[0]);
        assert("Sent"@[1] != "Spam"@[1]);
    }
    v
}

/// A watcher key is prefixed by `"{account}:"` exactly when the registration
/// belongs to that account, provided account ids do not contain the
/// delimiter.
pub proof fn lemma_key_prefix_selects_account(r: WatcherRegistration, a: Seq<char>)
    requires
        !r.account_id@.contains(':'),
        !a.contains(':'),
    ensures
        account_key_prefix(a).is_prefix_of(registration_key(r)) <==> r.account_id@ == a,
{
    let b = r.account_id@;
    let key = registration_key(r);
    let p = account_key_prefix(a);
    if b == a {
        assert(p =~= key.subrange(0, p.len() as int));
        assert(p.is_prefix_of(key));
    }
    if p.is_prefix_of(key) {
        assert(p =~= key.subrange(0, p.len() as int));
        if a.len() < b.len() {
            assert(p[a.len() as int] == ':');
            assert(key[a.len() as int] == b[a.len() as int]);
            assert(b.contains(':'));
        } else if b.len() < a.len() {
            assert(key[b.len() as int] == ':');
            assert(p[b.len() as int] == a[b.len() as int]);
            assert(a.contains(':'));
        } else {
            assert forall|k: int| 0 <= k < b.len() implies b[k] == a[k] by {
                assert(p[k] == key[k]);
                assert(key[k] == b[k]);
                assert(p[k] == a[k]);
            }
            assert(b =~= a);
        }
    }
}

/// The watcher's states: it sits at the loop top disconnected, is building
/// credentials and a connection, is waiting for a folder change, or has
/// observed cancellation and stopped — the only exit.
#[derive(Clone, Copy, Debug, PartialEq, Eq, Structural)]
pub enum WatcherState {
    Disconnected,
    Connecting,
    Watching,
    Stopped,
}

/// How one await-change call came back.
#[derive(Clone, Copy, Debug, PartialEq, Eq, Structural)]
pub enum WaitOutcome {
    NewMail,
    TimedOut,
    Failed,
}

/// What the loop outside observed and feeds into the machine.
#[derive(Clone, Copy, Debug, PartialEq, Eq, Structural)]
pub enum WatcherEvent {
    /// The loop top was reached; the cancellation signal was polled.
    LoopTop { cancel_requested: bool },
    /// Fresh credentials were resolved — or could not be.
    CredentialsResolved { ok: bool },
    /// The connection attempt finished.
    ConnectFinished { ok: bool },
    /// The await-change call finished.
    WaitFinished { outcome: WaitOutcome },
}

/// What the loop outside must do next.
#[derive(Clone, Copy, Debug, PartialEq, Eq, Structural)]
pub enum WatcherAction {
    /// Resolve fresh credentials; never reuse a prior credential object.
    ResolveCredentials,
    /// Build a new session and connect it.
    EstablishConnection,
    /// Issue the await-change call with the bounded wait.
    AwaitChange { max_wait_secs: u64 },
    /// Emit the new-mail notification, then return to the loop top.
    EmitNewMail,
    /// Sleep the fixed delay, then return to the loop top.
    RetryAfterDelay { delay_secs: u64 },
    /// Return to the loop top at once.
    Resume,
    /// Leave the loop.
    Exit,
}

/// A transition's result: the state entered and the action to perform.
#[derive(Clone, Copy, Debug, PartialEq, Eq, Structural)]
pub struct WatcherStep {
    pub state: WatcherState,
    pub action: WatcherAction,
}

/// The watcher's transition function.
///
/// Cancellation is observed only at the loop top and is the only path into
/// `Stopped`. Every failure — credentials, connect, or the wait itself —
/// leads back to the loop top after the fixed retry delay, so the next cycle
/// resolves credentials afresh and reconnects. A timed-out wait is simply
/// re-issued from the loop top with no delay. An event that cannot occur in
/// the given state stops the watcher defensively.
pub open spec fn spec_watcher_step(state: WatcherState, event: WatcherEvent) -> WatcherStep {
    match (state, event) {
        (WatcherState::Disconnected, WatcherEvent::LoopTop { cancel_requested }) => if cancel_requested {
            WatcherStep { state: WatcherState::Stopped, action: WatcherAction::Exit }
        } else {
            WatcherStep { state: WatcherState::Connecting, action: WatcherAction::ResolveCredentials }
        },
        (WatcherState::Connecting, WatcherEvent::CredentialsResolved { ok }) => if ok {
            WatcherStep { state: WatcherState::Connecting, action: WatcherAction::EstablishConnection }
        } else {
            WatcherStep {
                state: WatcherState::Disconnected,
                action: WatcherAction::RetryAfterDelay { delay_secs: RETRY_DELAY_SECS },
            }
        },
        (WatcherState::Connecting, WatcherEvent::ConnectFinished { ok }) => if ok {
            WatcherStep {
                state: WatcherState::Watching,
                action: WatcherAction::AwaitChange { max_wait_secs: IDLE_REISSUE_SECS },
            }
        } else {
            WatcherStep {
                state: WatcherState::Disconnected,
                action: WatcherAction::RetryAfterDelay { delay_secs: RETRY_DELAY_SECS },
            }
        },
        (WatcherState::Watching, WatcherEvent::WaitFinished { outcome }) => match outcome {
            WaitOutcome::NewMail => WatcherStep {
                state: WatcherState::Disconnected,
                action: WatcherAction::EmitNewMail,
            },
            WaitOutcome::TimedOut => WatcherStep {
                state: WatcherState::Disconnected,
                action: WatcherAction::Resume,
            },
            WaitOutcome::Failed => WatcherStep {
                state: WatcherState::Disconnected,
                action: WatcherAction::RetryAfterDelay { delay_secs: RETRY_DELAY_SECS },
            },
        },
        _ => WatcherStep { state: WatcherState::Stopped, action: WatcherAction::Exit },
    }
}

/// Take one step of the watcher state machine.
pub fn watcher_step(state: &WatcherState, event: &WatcherEvent) -> (r: WatcherStep)
    ensures
        r == spec_watcher_step(*state, *event),
{
    match (state, event) {
        (WatcherState::Disconnected, WatcherEvent::LoopTop { cancel_requested }) => {
            if *cancel_requested {
                WatcherStep { state: WatcherState::Stopped, action: WatcherAction::Exit }
            } else {
                WatcherStep {
                    state: WatcherState::Connecting,
                    action: WatcherAction::ResolveCredentials,
                }
            }
        },
        (WatcherState::Connecting, WatcherEvent::CredentialsResolved { ok }) => {
            if *ok {
                WatcherStep {
                    state: WatcherState::Connecting,
                    action: WatcherAction::EstablishConnection,
                }
            } else {
                WatcherStep {
                    state: WatcherState::Disconnected,
                    action: WatcherAction::RetryAfterDelay { delay_secs: RETRY_DELAY_SECS },
                }
            }
        },
        (WatcherState::Connecting, WatcherEvent::ConnectFinished { ok }) => {
            if *ok {
                WatcherStep {
                    state: WatcherState::Watching,
                    action: WatcherAction::AwaitChange { max_wait_secs: IDLE_REISSUE_SECS },
                }
            } else {
                WatcherStep {
                    state: WatcherState::Disconnected,
                    action: WatcherAction::RetryAfterDelay { delay_secs: RETRY_DELAY_SECS },
                }
            }
        },
        (WatcherState::Watching, WatcherEvent::WaitFinished { outcome }) => match outcome {
            WaitOutcome::NewMail => WatcherStep {
                state: WatcherState::Disconnected,
                action: WatcherAction::EmitNewMail,
            },
            WaitOutcome::TimedOut => WatcherStep {
                state: WatcherState::Disconnected,
                action: WatcherAction::Resume,
            },
            WaitOutcome::Failed => WatcherStep {
                state: WatcherState::Disconnected,
                action: WatcherAction::RetryAfterDelay { delay_secs: RETRY_DELAY_SECS },
            },
        },
        _ => WatcherStep { state: WatcherState::Stopped, action: WatcherAction::Exit },
    }
}

/// A failed await-change call forces, after the fixed retry delay, a full
/// reconnect: the next cycle starts at the loop top, and an uncancelled loop
/// top always resolves fresh credentials before any connection is attempted.
pub proof fn lemma_wait_failure_forces_full_reconnect()
    ensures
        spec_watcher_step(
            WatcherState::Watching,
            WatcherEvent::WaitFinished { outcome: WaitOutcome::Failed },
        ) == (WatcherStep {
            state: WatcherState::Disconnected,
            action: WatcherAction::RetryAfterDelay { delay_secs: RETRY_DELAY_SECS },
        }),
        spec_watcher_step(
            WatcherState::Disconnected,
            WatcherEvent::LoopTop { cancel_requested: false },
        ) == (WatcherStep {
            state: WatcherState::Connecting,
            action: WatcherAction::ResolveCredentials,
        }),
{
}

/// Cancellation observed at the loop top is the only transition into
/// `Stopped` from the live states the loop moves through.
pub proof fn lemma_cancel_is_only_exit(state: WatcherState, event: WatcherEvent)
    requires
        match event {
            WatcherEvent::LoopTop { .. } => state is Disconnected,
            WatcherEvent::CredentialsResolved { .. } => state is Connecting,
            WatcherEvent::ConnectFinished { .. } => state is Connecting,
            WatcherEvent::WaitFinished { .. } => state is Watching,
        },
    ensures
        spec_watcher_step(state, event).state is Stopped <==> event == (WatcherEvent::LoopTop {
            cancel_requested: true,
        }),
{
}

} // verus!
