use sonify_health::supervision::{
    on_thread_panicked, SupervisorAction,
    plan_play_spawns, retain_wanted_play_threads, PlaySpawn, PlayTarget, SpawnSlot,
    extract_panic_message, is_health_log_tick, is_supervision_tick, next_tick, respawn_action,
    AudioRecoveryState, Backoff, FailureBudget, PanicPayload, RespawnAction, SupervisedThread,
    ThreadRole, FAILURE_WINDOW_MS, MAX_BACKOFF_MS, MAX_FAILURES_PER_THREAD,
};

#[test]
fn daemon_extract_panic_message_str() {
    let payload = PanicPayload::Str("boom".to_string());
    assert_eq!(extract_panic_message(&payload), "boom");
}

#[test]
fn daemon_extract_panic_message_unknown() {
    let payload = PanicPayload::Other("i32".to_string());
    let msg = extract_panic_message(&payload);
    assert!(msg.starts_with("<non-string panic:"), "Unexpected message: {msg}");
}

#[test]
fn audio_engine_extract_panic_message_str() {
    let payload = PanicPayload::Str("boom".to_string());
    assert_eq!(extract_panic_message(&payload), "boom");
}

#[test]
fn audio_engine_extract_panic_message_unknown() {
    let payload = PanicPayload::Other("i32".to_string());
    let msg = extract_panic_message(&payload);
    assert!(msg.starts_with("<non-string panic:"), "Unexpected message: {msg}");
}

#[test]
fn daemon_extract_panic_message_string() {
    let payload = PanicPayload::Owned(String::from("kaboom"));
    assert_eq!(extract_panic_message(&payload), "kaboom");
}

#[test]
fn audio_engine_extract_panic_message_string() {
    let payload = PanicPayload::Owned(String::from("kaboom"));
    assert_eq!(extract_panic_message(&payload), "kaboom");
    assert_eq!(
        extract_panic_message(&PanicPayload::Other("i32".to_string())),
        "<non-string panic: i32>"
    );
}

fn records_failures_in_window() {
    let mut st = SupervisedThread::new((), "localhost".to_string(), 0, ThreadRole::Poll);
    for k in 0..MAX_FAILURES_PER_THREAD as u64 {
        assert!(!st.record_failure_at(1_000 + k), "should not be exhausted yet");
    }
    assert_eq!(st.budget.failures.len(), MAX_FAILURES_PER_THREAD);
    assert_eq!(st.role, ThreadRole::Poll);
}

fn budget_exhaustion() {
    let mut st = SupervisedThread::new((), "localhost".to_string(), 0, ThreadRole::Play);
    for k in 0..MAX_FAILURES_PER_THREAD as u64 {
        st.record_failure_at(1_000 + k);
    }
    assert!(st.record_failure_at(1_010), "budget should be exhausted");
}

fn prunes_old_failures() {
    let mut st = SupervisedThread::new((), "localhost".to_string(), 0, ThreadRole::Poll);
    let now = FAILURE_WINDOW_MS + 10_000;
    let old = now - FAILURE_WINDOW_MS - 1_000;
    for _ in 0..MAX_FAILURES_PER_THREAD {
        st.budget.failures.push(old);
    }
    assert_eq!(st.budget.failures.len(), MAX_FAILURES_PER_THREAD);
    assert!(!st.record_failure_at(now), "old failures should be pruned");
    assert_eq!(st.budget.failures.len(), 1);
}

#[test]
fn daemon_supervised_thread_records_failures_in_window() {
    records_failures_in_window();
}

#[test]
fn audio_engine_supervised_thread_records_failures_in_window() {
    records_failures_in_window();
}

#[test]
fn daemon_supervised_thread_budget_exhaustion() {
    budget_exhaustion();
}

#[test]
fn audio_engine_supervised_thread_budget_exhaustion() {
    budget_exhaustion();
}

#[test]
fn daemon_supervised_thread_prunes_old_failures() {
    prunes_old_failures();
}

#[test]
fn audio_engine_supervised_thread_prunes_old_failures() {
    prunes_old_failures();
}

#[test]
fn old_failures_leave_the_window() {
    let mut budget = FailureBudget::new();
    for k in 0..5u64 {
        assert!(!budget.record_failure_at(k));
    }
    // Far later: the earlier failures no longer count.
    assert!(!budget.record_failure_at(FAILURE_WINDOW_MS + 10));
    assert_eq!(budget.failures, vec![FAILURE_WINDOW_MS + 10]);
}

#[test]
fn thread_role_names() {
    assert_eq!(ThreadRole::Poll.as_str(), "poll");
    assert_eq!(ThreadRole::Play.as_str(), "play");
}

#[test]
fn respawn_decisions() {
    assert_eq!(respawn_action(ThreadRole::Poll, true, false), RespawnAction::RespawnPoll);
    assert_eq!(respawn_action(ThreadRole::Play, true, true), RespawnAction::RespawnPlay);
    assert_eq!(respawn_action(ThreadRole::Play, true, false), RespawnAction::NoMixer);
    assert_eq!(respawn_action(ThreadRole::Poll, false, true), RespawnAction::SourceGone);
}

#[test]
fn backoff_doubles_up_to_cap() {
    let mut b = Backoff::initial();
    assert_eq!(b.delay_ms, 1_000);
    b.advance();
    assert_eq!(b.delay_ms, 2_000);
    for _ in 0..10 {
        b.advance();
    }
    assert_eq!(b.delay_ms, MAX_BACKOFF_MS);
    b.reset();
    assert_eq!(b.delay_ms, 1_000);
}

#[test]
fn recovery_waits_for_backoff() {
    let mut s = AudioRecoveryState::new();
    assert!(s.should_try(0));
    s.note_attempt();
    s.on_failure(10_000);
    assert!(!s.should_try(10_500));
    assert!(s.should_try(12_000));
    s.on_success();
    assert!(s.should_try(0));
}

#[test]
fn tick_schedule() {
    assert!(is_supervision_tick(0));
    assert!(is_supervision_tick(10));
    assert!(!is_supervision_tick(11));
    assert!(is_health_log_tick(300));
    assert!(!is_health_log_tick(299));
    assert_eq!(next_tick(5), 6);
    assert_eq!(next_tick(u32::MAX), 0);
}

fn entry(source: &str, hb: usize, role: ThreadRole) -> SupervisedThread<u8> {
    SupervisedThread::new(0, source.to_string(), hb, role)
}

#[test]
fn play_threads_of_removed_sources_are_dropped() {
    let mut threads = vec![
        entry("localhost", 0, ThreadRole::Poll),
        entry("gone", 0, ThreadRole::Play),
        entry("gone", 0, ThreadRole::Poll),
        entry("localhost", 0, ThreadRole::Play),
    ];
    retain_wanted_play_threads(&mut threads, &vec!["localhost".to_string()]);
    let kept: Vec<(String, ThreadRole)> = threads.iter().map(|t| (t.source_name.clone(), t.role)).collect();
    assert_eq!(
        kept,
        vec![
            ("localhost".to_string(), ThreadRole::Poll),
            ("gone".to_string(), ThreadRole::Poll),
            ("localhost".to_string(), ThreadRole::Play),
        ]
    );
}

#[test]
fn rebalance_spawns_missing_play_threads() {
    let threads = vec![
        entry("localhost", 0, ThreadRole::Play),
        entry("localhost", 1, ThreadRole::Play),
        entry("localhost", 1, ThreadRole::Poll),
    ];
    // The thread for heartbeat 0 runs; the one for heartbeat 1 exited.
    let live = vec![true, false, true];
    let desired = vec![
        PlayTarget { source_name: "localhost".to_string(), hb_idx: 0 },
        PlayTarget { source_name: "localhost".to_string(), hb_idx: 1 },
        PlayTarget { source_name: "remote".to_string(), hb_idx: 0 },
        PlayTarget { source_name: "remote".to_string(), hb_idx: 0 },
    ];
    assert_eq!(
        plan_play_spawns(&threads, &live, &desired),
        vec![
            PlaySpawn { target: 1, slot: SpawnSlot::Reuse(1) },
            PlaySpawn { target: 2, slot: SpawnSlot::Append },
        ]
    );
}

#[test]
fn budget_exhaustion_shuts_down() {
    assert_eq!(on_thread_panicked(true, ThreadRole::Poll, true, true), SupervisorAction::Shutdown);
    assert_eq!(
        on_thread_panicked(false, ThreadRole::Play, true, false),
        SupervisorAction::Recover(RespawnAction::NoMixer)
    );
    let mut st = SupervisedThread::new((), "localhost".to_string(), 0, ThreadRole::Poll);
    for k in 0..MAX_FAILURES_PER_THREAD as u64 {
        assert_eq!(st.on_panic_at(1_000 + k, true, false), SupervisorAction::Recover(RespawnAction::RespawnPoll));
    }
    assert_eq!(st.on_panic_at(1_010, true, false), SupervisorAction::Shutdown);
}
