use mailcore::stats::collect_folder_stats;
use mailcore::watch::{
    monitored_folders, watcher_step, WaitOutcome, WatchRegistry, WatcherAction, WatcherEvent,
    WatcherState, IDLE_REISSUE_SECS, RETRY_DELAY_SECS,
};

#[test]
fn start_twice_keeps_one_watcher_per_folder() {
    let mut reg = WatchRegistry::new();
    let folders = monitored_folders();
    reg.start_monitoring("acme", &folders);
    let (stopped, started) = reg.start_monitoring("acme", &folders);
    // the second start fully stopped the first set before registering anew
    assert_eq!(stopped.len(), folders.len());
    assert_eq!(started.len(), folders.len());
    assert_eq!(reg.watcher_count(), folders.len());
    for f in &folders {
        assert!(reg.is_watching("acme", f.as_str()));
    }
}

#[test]
fn stop_removes_only_this_accounts_watchers() {
    let mut reg = WatchRegistry::new();
    let folders = monitored_folders();
    reg.start_monitoring("acme", &folders);
    reg.start_monitoring("globex", &folders);
    let stopped = reg.stop_monitoring("acme");
    assert_eq!(stopped.len(), folders.len());
    assert_eq!(reg.watcher_count(), folders.len());
    for f in &folders {
        assert!(!reg.is_watching("acme", f.as_str()));
        assert!(reg.is_watching("globex", f.as_str()));
    }
}

#[test]
fn scenario_two_folders_register_and_clear() {
    let mut reg = WatchRegistry::new();
    let folders = vec!["INBOX".to_string(), "Sent".to_string()];
    reg.start_monitoring("acme", &folders);
    assert_eq!(reg.watcher_count(), 2);
    assert!(reg.is_watching("acme", "INBOX"));
    assert!(reg.is_watching("acme", "Sent"));
    let stopped = reg.stop_monitoring("acme");
    assert_eq!(stopped.len(), 2);
    assert_eq!(reg.watcher_count(), 0);
}

#[test]
fn stop_all_clears_every_account() {
    let mut reg = WatchRegistry::new();
    let folders = monitored_folders();
    reg.start_monitoring("acme", &folders);
    reg.start_monitoring("globex", &folders);
    let stopped = reg.stop_all_monitoring();
    assert_eq!(stopped.len(), 2 * folders.len());
    assert_eq!(reg.watcher_count(), 0);
}

#[test]
fn wait_error_forces_full_reconnect() {
    let s1 = watcher_step(
        &WatcherState::Watching,
        &WatcherEvent::WaitFinished { outcome: WaitOutcome::Failed },
    );
    assert_eq!(s1.state, WatcherState::Disconnected);
    assert_eq!(s1.action, WatcherAction::RetryAfterDelay { delay_secs: RETRY_DELAY_SECS });
    // after the delay the loop top resolves fresh credentials, then connects
    let s2 = watcher_step(&s1.state, &WatcherEvent::LoopTop { cancel_requested: false });
    assert_eq!(s2.state, WatcherState::Connecting);
    assert_eq!(s2.action, WatcherAction::ResolveCredentials);
    let s3 = watcher_step(&s2.state, &WatcherEvent::CredentialsResolved { ok: true });
    assert_eq!(s3.action, WatcherAction::EstablishConnection);
    let s4 = watcher_step(&s3.state, &WatcherEvent::ConnectFinished { ok: true });
    assert_eq!(s4.state, WatcherState::Watching);
    assert_eq!(s4.action, WatcherAction::AwaitChange { max_wait_secs: IDLE_REISSUE_SECS });
}

#[test]
fn cancellation_stops_only_at_loop_top() {
    let s = watcher_step(
        &WatcherState::Disconnected,
        &WatcherEvent::LoopTop { cancel_requested: true },
    );
    assert_eq!(s.state, WatcherState::Stopped);
    assert_eq!(s.action, WatcherAction::Exit);
    // a timed-out wait is re-issued from the loop top with no delay
    let t = watcher_step(
        &WatcherState::Watching,
        &WatcherEvent::WaitFinished { outcome: WaitOutcome::TimedOut },
    );
    assert_eq!(t.state, WatcherState::Disconnected);
    assert_eq!(t.action, WatcherAction::Resume);
    // new mail emits the notification before the next cycle
    let m = watcher_step(
        &WatcherState::Watching,
        &WatcherEvent::WaitFinished { outcome: WaitOutcome::NewMail },
    );
    assert_eq!(m.action, WatcherAction::EmitNewMail);
}

#[test]
fn stats_report_zeros_for_failed_folders() {
    let folders = vec!["INBOX".to_string(), "Sent".to_string()];
    let outcomes = vec![Some((10u32, 2u32)), None];
    let rows = collect_folder_stats(&folders, &outcomes);
    assert_eq!(rows.len(), 2);
    assert_eq!(rows[0].folder_name, "INBOX");
    assert_eq!(rows[0].total_count, 10);
    assert_eq!(rows[0].unread_count, 2);
    assert_eq!(rows[1].folder_name, "Sent");
    assert_eq!(rows[1].total_count, 0);
    assert_eq!(rows[1].unread_count, 0);
}
