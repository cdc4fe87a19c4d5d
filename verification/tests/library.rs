use kill_switch_drill::text::{contains, decimal, is_blank};
use kill_switch_drill::{
    append_capped, check_live_confirmation, command_result, render_card, validation_summary,
    wait_step, AllowedCommand, Checkpoint, CommandOutcome, Config, IncidentCard, State, Table,
    WaitStatus, WaitStep, MAX_CAPTURED_STDOUT_BYTES, POLL_INTERVAL_MS,
};

fn command(expect: Option<&str>, timeout_seconds: u64) -> AllowedCommand {
    AllowedCommand {
        command: vec!["./ops/check".to_string(), "--all".to_string()],
        expect_stdout: expect.map(|s| s.to_string()),
        timeout_seconds,
    }
}

#[test]
fn table_keeps_keys_sorted_and_unique() {
    let mut t: Table<u32> = Table::new();
    assert!(t.is_empty());
    t.insert("b".to_string(), 2);
    t.insert("a".to_string(), 1);
    t.insert("c".to_string(), 3);
    t.insert("b".to_string(), 20);
    assert_eq!(t.len(), 3);
    let keys: Vec<String> = (0..t.len()).map(|i| t.entry(i).0.clone()).collect();
    assert_eq!(keys, vec!["a", "b", "c"]);
    assert_eq!(t.get("b"), Some(&20));
    assert_eq!(t.get("d"), None);
    assert!(t.contains_key("a"));
    assert!(!t.contains_key("A"));
}

#[test]
fn table_orders_keys_bytewise() {
    let mut t: Table<()> = Table::new();
    for k in ["é", "z", "Z", "payments-write", "payments", ""] {
        t.insert(k.to_string(), ());
    }
    let keys: Vec<String> = (0..t.len()).map(|i| t.entry(i).0.clone()).collect();
    let mut expected: Vec<String> = keys.clone();
    expected.sort();
    assert_eq!(keys, expected);
    assert_eq!(keys, vec!["", "Z", "payments", "payments-write", "z", "é"]);
}

#[test]
fn read_after_write_returns_the_written_value() {
    let mut t: Table<String> = Table::new();
    t.insert("k".to_string(), "old".to_string());
    t.insert("other".to_string(), "kept".to_string());
    t.insert("k".to_string(), "new".to_string());
    assert_eq!(t.get("k").map(|s| s.as_str()), Some("new"));
    assert_eq!(t.get("other").map(|s| s.as_str()), Some("kept"));
}

#[test]
fn blank_text_is_unicode_white_space_only() {
    assert!(is_blank(""));
    assert!(is_blank(" \t\n\r\u{0b}\u{0c}"));
    assert!(is_blank("\u{a0}\u{2003}\u{3000}\u{85}"));
    assert!(!is_blank(" x "));
    assert!(!is_blank("\u{200b}"));
    assert_eq!(is_blank("\u{2028}"), "\u{2028}".trim().is_empty());
}

#[test]
fn decimal_matches_display() {
    for n in [0u64, 7, 10, 30, 99, 1234567890, u64::MAX] {
        assert_eq!(decimal(n), n.to_string());
    }
}

#[test]
fn contains_matches_str_contains() {
    assert!(contains("HTTP 403 Forbidden", "403"));
    assert!(contains("abc", ""));
    assert!(contains("", ""));
    assert!(!contains("", "a"));
    assert!(!contains("40", "403"));
    assert!(contains("aaab", "aab"));
    assert!(contains("héllo", "él"));
}

#[test]
fn output_is_decoded_lossily_before_matching() {
    let replaced = command(Some("4\u{fffd}3"), 5);
    let outcome = CommandOutcome::Exited {
        success: true,
        stdout: vec![0x34, 0xff, 0x33],
    };
    assert_eq!(
        command_result("probe", &replaced, &outcome),
        (true, "control-plane response matched".to_string())
    );
    let raw = command(Some("4\u{ff}3"), 5);
    assert_eq!(
        command_result("probe", &raw, &outcome).0,
        false
    );
}

#[test]
fn command_results_and_notes() {
    let c = command(Some("403"), 12);
    let cases: Vec<(CommandOutcome, bool, &str)> = vec![
        (
            CommandOutcome::SpawnFailed("No such file or directory (os error 2)".to_string()),
            false,
            "could not execute declared command `probe`: No such file or directory (os error 2)",
        ),
        (
            CommandOutcome::NoStdout,
            false,
            "could not read declared command `probe` response",
        ),
        (
            CommandOutcome::TimedOut,
            false,
            "declared command `probe` timed out after 12 seconds",
        ),
        (
            CommandOutcome::WaitFailed("interrupted".to_string()),
            false,
            "could not wait for declared command `probe`: interrupted",
        ),
        (
            CommandOutcome::ReadFailed("broken pipe".to_string()),
            false,
            "could not read declared command `probe` response: broken pipe",
        ),
        (
            CommandOutcome::ReaderLost,
            false,
            "could not read declared command `probe` response",
        ),
        (
            CommandOutcome::Exited {
                success: true,
                stdout: b"status 403\n".to_vec(),
            },
            true,
            "control-plane response matched",
        ),
        (
            CommandOutcome::Exited {
                success: true,
                stdout: b"status 200\n".to_vec(),
            },
            false,
            "command completed but expected response was absent",
        ),
        (
            CommandOutcome::Exited {
                success: false,
                stdout: b"status 403\n".to_vec(),
            },
            false,
            "command exited unsuccessfully",
        ),
    ];
    for (outcome, ok, note) in cases {
        assert_eq!(command_result("probe", &c, &outcome), (ok, note.to_string()));
    }
    let any = command(None, 30);
    assert_eq!(
        command_result(
            "probe",
            &any,
            &CommandOutcome::Exited {
                success: true,
                stdout: vec![0xff],
            }
        ),
        (true, "control-plane response matched".to_string())
    );
}

#[test]
fn notes_ignore_the_argv_and_the_output() {
    let mut secretive = command(Some("403"), 12);
    secretive.command = vec!["printf".to_string(), "TOKEN=abc".to_string()];
    let outcome = CommandOutcome::Exited {
        success: true,
        stdout: b"TOKEN=abc 403".to_vec(),
    };
    let (ok, note) = command_result("probe", &secretive, &outcome);
    assert!(ok);
    assert!(!note.contains("TOKEN"));
    assert!(!note.contains("printf"));
    assert_eq!(
        command_result("probe", &command(Some("403"), 12), &outcome),
        (ok, note)
    );
}

#[test]
fn captured_output_is_capped() {
    let mut captured = Vec::new();
    append_capped(&mut captured, b"hello");
    assert_eq!(captured, b"hello");
    let chunk = vec![7u8; 8192];
    while captured.len() < MAX_CAPTURED_STDOUT_BYTES {
        append_capped(&mut captured, &chunk);
    }
    assert_eq!(captured.len(), MAX_CAPTURED_STDOUT_BYTES);
    append_capped(&mut captured, b"more");
    assert_eq!(captured.len(), MAX_CAPTURED_STDOUT_BYTES);
    assert_eq!(&captured[..5], b"hello");
    assert_eq!(MAX_CAPTURED_STDOUT_BYTES, 1024 * 1024);
}

#[test]
fn live_runs_need_an_exact_confirmation() {
    assert!(check_live_confirmation(false, "payments-write", None).is_ok());
    assert!(check_live_confirmation(true, "payments-write", Some("payments-write")).is_ok());
    assert_eq!(
        check_live_confirmation(true, "payments-write", Some("payments")),
        Err("live actions are locked. Re-run with --live --confirm payments-write".to_string())
    );
    assert_eq!(
        check_live_confirmation(true, "payments-write", None),
        Err("live actions are locked. Re-run with --live --confirm payments-write".to_string())
    );
}

fn sample_card(all_confirmed: bool) -> IncidentCard {
    IncidentCard {
        schema: "agent-kill-switch-drill/incident-card@v1",
        profile: "sample".to_string(),
        description: "d".to_string(),
        mode: "dry_run",
        started_at_unix: 1,
        completed_at_unix: 2,
        all_confirmed,
        checkpoints: vec![Checkpoint {
            name: "Deny".to_string(),
            action_id: "act".to_string(),
            action: State::Simulated,
            verification_id: Some("check".to_string()),
            verification: State::Passed,
            duration_ms: 5,
            note: "dry run: allowlisted action was not executed; control-plane response matched"
                .to_string(),
        }],
        report_safety: "safe",
    }
}

#[test]
fn card_renders_as_text() {
    assert_eq!(
        render_card(&sample_card(true)),
        "INCIDENT CARD · sample · dry run\nDeny — action: Simulated; verification: Passed (dry run: allowlisted action was not executed; control-plane response matched)\nRESULT: ALL DECLARED PATHS CONFIRMED\n"
    );
    assert!(render_card(&sample_card(false)).ends_with("RESULT: REVIEW REQUIRED\n"));
    assert_eq!(
        format!("{:?} {:?}", State::Failed, State::Skipped),
        "Failed Skipped"
    );
}

#[test]
fn exit_code_follows_confirmation() {
    assert_eq!(kill_switch_drill::drill_exit_code(&sample_card(true)), 0);
    assert_eq!(kill_switch_drill::drill_exit_code(&sample_card(false)), 2);
}

#[test]
fn validation_summary_counts_profiles_and_commands() {
    let mut allowlist = Table::new();
    allowlist.insert("a".to_string(), command(None, 5));
    allowlist.insert("b".to_string(), command(None, 5));
    let config = Config {
        version: 1,
        allowlist,
        profiles: Table::new(),
    };
    assert_eq!(
        validation_summary(&config, false),
        "Valid: 0 profile(s), 2 allowlisted command(s).\n"
    );
    assert_eq!(
        validation_summary(&config, true),
        "{\"valid\":true,\"profiles\":0,\"allowlist\":2}\n"
    );
}

#[test]
fn wait_loop_stops_commands_at_their_timeout() {
    assert_eq!(wait_step(1, 0, WaitStatus::Exited(true)), WaitStep::Collect(true));
    assert_eq!(wait_step(1, 5000, WaitStatus::Exited(false)), WaitStep::Collect(false));
    assert_eq!(wait_step(1, 0, WaitStatus::Failed), WaitStep::StopWaitFailed);
    assert_eq!(wait_step(1, 999, WaitStatus::Running), WaitStep::PollAfterMs(10));
    assert_eq!(wait_step(1, 1000, WaitStatus::Running), WaitStep::StopTimedOut);
    assert_eq!(wait_step(30, 29_999, WaitStatus::Running), WaitStep::PollAfterMs(10));
    assert_eq!(wait_step(30, 30_000, WaitStatus::Running), WaitStep::StopTimedOut);
    assert_eq!(POLL_INTERVAL_MS, 10);
}
