use transfer_agent::agent::{completion_of, wait_timeout, Agent, Polled, DEFAULT_TIMEOUT_MS};
use transfer_agent::message::{
    Action, Completion, Message, Phase, PollMode, Resolution, Stage, Task,
};

#[test]
fn new_agent_is_running_and_idle() {
    let agent = Agent::new();
    assert!(!agent.close_requested());
    assert!(agent.is_idle());
    assert!(!agent.should_stop());
    assert_eq!(agent.phase(), Phase::Running);
    assert_eq!(agent.poll_mode(), PollMode::Blocking);
    assert_eq!(agent.vacant_token(), 0);
}

#[test]
fn begin_request_registers_under_fresh_token() {
    let mut agent = Agent::new();
    assert_eq!(
        agent.handle_message(Message::BeginRequest(70)),
        Action::Register { token: 0, transfer: 70 }
    );
    assert_eq!(
        agent.handle_message(Message::BeginRequest(71)),
        Action::Register { token: 1, transfer: 71 }
    );
    assert!(agent.is_active(0));
    assert!(agent.is_active(1));
    assert!(!agent.is_active(2));
    assert_eq!(agent.poll_mode(), PollMode::NonBlocking);
}

#[test]
fn cancel_removes_and_aborts() {
    let mut agent = Agent::new();
    agent.handle_message(Message::BeginRequest(70));
    assert_eq!(
        agent.handle_message(Message::Cancel(0)),
        Action::Abort { token: 0, transfer: 70 }
    );
    assert!(!agent.is_active(0));
    assert!(agent.is_idle());
}

#[test]
fn cancel_of_absent_token_changes_nothing() {
    let mut agent = Agent::new();
    agent.handle_message(Message::BeginRequest(70));
    assert_eq!(agent.handle_message(Message::Cancel(5)), Action::Nothing);
    assert!(agent.is_active(0));
    assert!(!agent.is_active(5));
    assert!(!agent.close_requested());
    assert_eq!(agent.vacant_token(), 1);
}

#[test]
fn unpause_of_absent_token_changes_nothing() {
    let mut agent = Agent::new();
    agent.handle_message(Message::BeginRequest(70));
    assert_eq!(
        agent.handle_message(Message::UnpauseWrite(9)),
        Action::UnknownResume { token: 9 }
    );
    assert!(agent.is_active(0));
    assert!(!agent.is_active(9));
    assert_eq!(agent.vacant_token(), 1);
}

#[test]
fn unpause_resumes_active_transfer() {
    let mut agent = Agent::new();
    agent.handle_message(Message::BeginRequest(70));
    assert_eq!(
        agent.handle_message(Message::UnpauseWrite(0)),
        Action::ResumeWrite { token: 0, transfer: 70 }
    );
    assert!(agent.is_active(0));
}

#[test]
fn cancel_after_resolution_is_ignored() {
    let mut agent = Agent::new();
    agent.handle_message(Message::BeginRequest(70));
    agent.complete_request(0);
    assert_eq!(agent.handle_message(Message::Cancel(0)), Action::Nothing);
    assert!(agent.is_idle());
}

#[test]
fn close_does_not_remove_active_transfers() {
    let mut agent = Agent::new();
    agent.handle_message(Message::BeginRequest(70));
    assert_eq!(agent.handle_message(Message::Close), Action::Nothing);
    assert!(agent.close_requested());
    assert!(agent.is_active(0));
    assert!(!agent.should_stop());
    assert_eq!(agent.phase(), Phase::CloseRequested);
    assert_eq!(
        agent.complete_request(0),
        Resolution::Complete { token: 0, transfer: 70 }
    );
    assert!(agent.should_stop());
    assert_eq!(agent.phase(), Phase::Terminated);
}

#[test]
fn worker_stops_only_after_close_and_empty_table() {
    let mut agent = Agent::new();
    assert!(!agent.should_stop());
    agent.handle_message(Message::BeginRequest(1));
    assert!(!agent.should_stop());
    agent.handle_message(Message::Cancel(0));
    assert!(!agent.should_stop());
    agent.handle_message(Message::BeginRequest(2));
    agent.handle_message(Message::Close);
    assert!(!agent.should_stop());
    agent.handle_message(Message::UnpauseWrite(0));
    assert!(!agent.should_stop());
    agent.handle_message(Message::Cancel(0));
    assert!(agent.should_stop());
}

#[test]
fn close_on_idle_worker_terminates() {
    let mut agent = Agent::new();
    agent.handle_message(Message::Close);
    assert!(agent.should_stop());
    assert_eq!(agent.phase(), Phase::Terminated);
}

#[test]
fn token_is_reused_only_after_removal() {
    let mut agent = Agent::new();
    let first = agent.handle_message(Message::BeginRequest(1));
    let second = agent.handle_message(Message::BeginRequest(2));
    assert_eq!(first, Action::Register { token: 0, transfer: 1 });
    assert_eq!(second, Action::Register { token: 1, transfer: 2 });
    agent.handle_message(Message::Cancel(0));
    assert_eq!(
        agent.handle_message(Message::BeginRequest(3)),
        Action::Register { token: 0, transfer: 3 }
    );
    assert_eq!(
        agent.handle_message(Message::BeginRequest(4)),
        Action::Register { token: 2, transfer: 4 }
    );
}

#[test]
fn receive_applies_message_and_keeps_polling() {
    let mut agent = Agent::new();
    assert_eq!(
        agent.receive(Some(Message::BeginRequest(8))),
        Polled { action: Action::Register { token: 0, transfer: 8 }, more: true }
    );
    assert_eq!(
        agent.receive(None),
        Polled { action: Action::Nothing, more: false }
    );
    assert!(!agent.close_requested());
}

#[test]
fn receive_nothing_while_idle_requests_close() {
    let mut agent = Agent::new();
    assert_eq!(
        agent.receive(None),
        Polled { action: Action::Nothing, more: false }
    );
    assert!(agent.close_requested());
    assert!(agent.should_stop());
}

#[test]
fn complete_and_fail_resolve_their_token() {
    let mut agent = Agent::new();
    agent.handle_message(Message::BeginRequest(10));
    agent.handle_message(Message::BeginRequest(11));
    assert_eq!(
        agent.fail_request(1, 28),
        Resolution::Fail { token: 1, transfer: 11, code: 28 }
    );
    assert!(!agent.is_active(1));
    assert_eq!(agent.vacant_token(), 1);
    assert_eq!(
        agent.complete_request(0),
        Resolution::Complete { token: 0, transfer: 10 }
    );
    assert!(agent.is_idle());
    assert_eq!(agent.vacant_token(), 0);
}

#[test]
fn dispatch_of_nothing_changes_nothing() {
    let mut agent = Agent::new();
    agent.handle_message(Message::BeginRequest(10));
    let resolutions = agent.dispatch(&Vec::new());
    assert!(resolutions.is_empty());
    assert!(agent.is_active(0));
    assert_eq!(agent.vacant_token(), 1);
}

#[test]
fn dispatch_resolves_in_reported_order() {
    let mut agent = Agent::new();
    for transfer in 100..104u64 {
        agent.handle_message(Message::BeginRequest(transfer));
    }
    let events = vec![
        Completion { token: 2, failure: Some(7) },
        Completion { token: 0, failure: None },
    ];
    let resolutions = agent.dispatch(&events);
    assert_eq!(
        resolutions,
        vec![
            Resolution::Fail { token: 2, transfer: 102, code: 7 },
            Resolution::Complete { token: 0, transfer: 100 },
        ]
    );
    assert!(!agent.is_active(0));
    assert!(agent.is_active(1));
    assert!(!agent.is_active(2));
    assert!(agent.is_active(3));
    assert_eq!(agent.vacant_token(), 0);
}

#[test]
fn submit_three_cancel_one_succeed_one_fail_one() {
    let mut agent = Agent::new();
    let a = agent.handle_message(Message::BeginRequest(1));
    let b = agent.handle_message(Message::BeginRequest(2));
    let c = agent.handle_message(Message::BeginRequest(3));
    assert_eq!(a, Action::Register { token: 0, transfer: 1 });
    assert_eq!(b, Action::Register { token: 1, transfer: 2 });
    assert_eq!(c, Action::Register { token: 2, transfer: 3 });

    assert_eq!(
        agent.handle_message(Message::Cancel(1)),
        Action::Abort { token: 1, transfer: 2 }
    );

    let events = vec![
        Completion { token: 0, failure: None },
        Completion { token: 2, failure: Some(56) },
    ];
    let resolutions = agent.dispatch(&events);

    let completed_a = resolutions
        .iter()
        .filter(|r| matches!(r, Resolution::Complete { transfer: 1, .. }))
        .count();
    let failed_c = resolutions
        .iter()
        .filter(|r| matches!(r, Resolution::Fail { transfer: 3, code: 56, .. }))
        .count();
    let about_b = resolutions
        .iter()
        .filter(|r| {
            matches!(
                r,
                Resolution::Complete { transfer: 2, .. } | Resolution::Fail { transfer: 2, .. }
            )
        })
        .count();
    assert_eq!(completed_a, 1);
    assert_eq!(failed_c, 1);
    assert_eq!(about_b, 0);
    assert_eq!(resolutions.len(), 2);
    assert!(agent.is_idle());
    assert!(!agent.should_stop());
    assert_eq!(agent.phase(), Phase::Running);
}

#[test]
fn wait_timeout_is_bounded_by_default() {
    assert_eq!(DEFAULT_TIMEOUT_MS, 1000);
    assert_eq!(wait_timeout(None), 1000);
    assert_eq!(wait_timeout(Some(0)), 0);
    assert_eq!(wait_timeout(Some(250)), 250);
    assert_eq!(wait_timeout(Some(999)), 999);
    assert_eq!(wait_timeout(Some(1000)), 1000);
    assert_eq!(wait_timeout(Some(1001)), 1000);
    assert_eq!(wait_timeout(Some(u64::MAX)), 1000);
}

#[test]
fn completion_needs_result_and_token() {
    assert_eq!(
        completion_of(Some(Ok(())), Some(4)),
        Some(Completion { token: 4, failure: None })
    );
    assert_eq!(
        completion_of(Some(Err(35)), Some(2)),
        Some(Completion { token: 2, failure: Some(35) })
    );
    assert_eq!(completion_of(None, Some(4)), None);
    assert_eq!(completion_of(Some(Ok(())), None), None);
    assert_eq!(completion_of(Some(Err(35)), None), None);
    assert_eq!(completion_of(None, None), None);
}

#[test]
fn batch_with_absent_token_is_not_reportable() {
    let mut agent = Agent::new();
    agent.handle_message(Message::BeginRequest(10));
    let events = vec![
        Completion { token: 0, failure: None },
        Completion { token: 3, failure: None },
    ];
    assert!(!agent.is_reportable(&events));
    assert_eq!(agent.try_dispatch(&events), None);
    assert!(agent.is_active(0));
    assert_eq!(agent.vacant_token(), 1);
}

#[test]
fn batch_with_repeated_token_is_not_reportable() {
    let mut agent = Agent::new();
    agent.handle_message(Message::BeginRequest(10));
    agent.handle_message(Message::BeginRequest(11));
    let events = vec![
        Completion { token: 1, failure: None },
        Completion { token: 0, failure: Some(1) },
        Completion { token: 1, failure: Some(2) },
    ];
    assert!(!agent.is_reportable(&events));
    assert_eq!(agent.try_dispatch(&events), None);
    assert!(agent.is_active(0));
    assert!(agent.is_active(1));
}

#[test]
fn try_dispatch_resolves_reportable_batch() {
    let mut agent = Agent::new();
    agent.handle_message(Message::BeginRequest(10));
    agent.handle_message(Message::BeginRequest(11));
    let events = vec![Completion { token: 1, failure: Some(6) }];
    assert!(agent.is_reportable(&events));
    assert_eq!(
        agent.try_dispatch(&events),
        Some(vec![Resolution::Fail { token: 1, transfer: 11, code: 6 }])
    );
    assert!(agent.is_active(0));
    assert!(!agent.is_active(1));
    assert!(agent.is_reportable(&Vec::new()));
}

#[test]
fn idle_worker_sleeps_for_messages() {
    let mut agent = Agent::new();
    assert_eq!(agent.next_task(Stage::TurnStart), Task::Poll(PollMode::Blocking));
    assert_eq!(
        agent.next_task(Stage::Polled { more: true }),
        Task::Poll(PollMode::Blocking)
    );
    agent.handle_message(Message::BeginRequest(1));
    assert_eq!(agent.next_task(Stage::TurnStart), Task::Poll(PollMode::NonBlocking));
    assert_eq!(
        agent.next_task(Stage::Polled { more: true }),
        Task::Poll(PollMode::NonBlocking)
    );
    agent.handle_message(Message::Cancel(0));
    assert_eq!(agent.next_task(Stage::TurnStart), Task::Poll(PollMode::Blocking));
}

#[test]
fn loop_serves_engine_when_no_message_is_left() {
    let mut agent = Agent::new();
    assert_eq!(agent.next_task(Stage::Polled { more: false }), Task::Serve);
    agent.handle_message(Message::BeginRequest(1));
    assert_eq!(agent.next_task(Stage::Polled { more: false }), Task::Serve);
}

#[test]
fn loop_ends_as_soon_as_close_was_seen_and_table_is_empty() {
    let mut agent = Agent::new();
    agent.handle_message(Message::BeginRequest(1));
    agent.handle_message(Message::Close);
    assert_eq!(agent.next_task(Stage::TurnStart), Task::Poll(PollMode::NonBlocking));
    assert_eq!(
        agent.next_task(Stage::Polled { more: true }),
        Task::Poll(PollMode::NonBlocking)
    );
    assert_eq!(agent.next_task(Stage::Polled { more: false }), Task::Serve);
    agent.fail_request(0, 7);
    assert_eq!(agent.next_task(Stage::Polled { more: true }), Task::Shutdown);
    assert_eq!(agent.next_task(Stage::Polled { more: false }), Task::Shutdown);
    assert_eq!(agent.next_task(Stage::TurnStart), Task::Shutdown);
}

#[test]
fn lone_close_ends_the_loop_without_a_further_wait() {
    let mut agent = Agent::new();
    assert_eq!(agent.next_task(Stage::TurnStart), Task::Poll(PollMode::Blocking));
    let polled = agent.receive(Some(Message::Close));
    assert_eq!(polled, Polled { action: Action::Nothing, more: true });
    assert_eq!(agent.next_task(Stage::Polled { more: polled.more }), Task::Shutdown);
}

#[test]
fn loop_ends_when_last_transfer_is_cancelled_after_close() {
    let mut agent = Agent::new();
    agent.receive(Some(Message::BeginRequest(1)));
    agent.receive(Some(Message::Close));
    assert_eq!(
        agent.next_task(Stage::Polled { more: true }),
        Task::Poll(PollMode::NonBlocking)
    );
    let polled = agent.receive(Some(Message::Cancel(0)));
    assert_eq!(polled.action, Action::Abort { token: 0, transfer: 1 });
    assert_eq!(agent.next_task(Stage::Polled { more: polled.more }), Task::Shutdown);
}

#[test]
fn freed_tokens_come_back_last_freed_first() {
    let mut agent = Agent::new();
    for transfer in 0..4u64 {
        agent.handle_message(Message::BeginRequest(transfer));
    }
    agent.handle_message(Message::Cancel(1));
    agent.handle_message(Message::Cancel(3));
    agent.complete_request(0);
    assert_eq!(
        agent.handle_message(Message::BeginRequest(10)),
        Action::Register { token: 0, transfer: 10 }
    );
    assert_eq!(
        agent.handle_message(Message::BeginRequest(11)),
        Action::Register { token: 3, transfer: 11 }
    );
    assert_eq!(
        agent.handle_message(Message::BeginRequest(12)),
        Action::Register { token: 1, transfer: 12 }
    );
    assert_eq!(
        agent.handle_message(Message::BeginRequest(13)),
        Action::Register { token: 4, transfer: 13 }
    );
}

#[test]
fn batch_frees_tokens_last_reported_first() {
    let mut agent = Agent::new();
    for transfer in 0..3u64 {
        agent.handle_message(Message::BeginRequest(transfer));
    }
    let events = vec![
        Completion { token: 0, failure: Some(9) },
        Completion { token: 1, failure: None },
    ];
    assert_eq!(
        agent.dispatch(&events),
        vec![
            Resolution::Fail { token: 0, transfer: 0, code: 9 },
            Resolution::Complete { token: 1, transfer: 1 },
        ]
    );
    assert_eq!(agent.vacant_token(), 1);
    assert_eq!(
        agent.handle_message(Message::BeginRequest(20)),
        Action::Register { token: 1, transfer: 20 }
    );
    assert_eq!(
        agent.handle_message(Message::BeginRequest(21)),
        Action::Register { token: 0, transfer: 21 }
    );
    assert_eq!(
        agent.handle_message(Message::BeginRequest(22)),
        Action::Register { token: 3, transfer: 22 }
    );
}
