use kill_switch_drill::{
    default_timeout_seconds, drill_exit_code, run_drill, validate,
    AllowedCommand, CommandOutcome, Config, DrillAction, DrillError, DrillEvent, IncidentCard,
    Profile, State, Step, Table,
};

/// Reads a configuration written in TOML into the library's `Config`, with
/// the same defaults as the command-line reader.
fn config_from_toml(source: &str) -> Config {
    let table: toml::Table = source.parse().unwrap();
    let version = table["version"].as_integer().unwrap() as u32;
    let mut allowlist = Table::new();
    if let Some(entries) = table.get("allowlist") {
        for (id, entry) in entries.as_table().unwrap() {
            let entry = entry.as_table().unwrap();
            let command = entry["command"]
                .as_array()
                .unwrap()
                .iter()
                .map(|part| part.as_str().unwrap().to_string())
                .collect();
            let expect_stdout = entry
                .get("expect_stdout")
                .map(|v| v.as_str().unwrap().to_string());
            let timeout_seconds = entry
                .get("timeout_seconds")
                .map(|v| v.as_integer().unwrap() as u64)
                .unwrap_or_else(default_timeout_seconds);
            allowlist.insert(
                id.clone(),
                AllowedCommand {
                    command,
                    expect_stdout,
                    timeout_seconds,
                },
            );
        }
    }
    let mut profiles = Table::new();
    if let Some(entries) = table.get("profiles") {
        for (id, entry) in entries.as_table().unwrap() {
            let entry = entry.as_table().unwrap();
            let description = entry["description"].as_str().unwrap().to_string();
            let mut steps = Vec::new();
            if let Some(list) = entry.get("steps") {
                for step in list.as_array().unwrap() {
                    let step = step.as_table().unwrap();
                    steps.push(Step {
                        name: step["name"].as_str().unwrap().to_string(),
                        action: step["action"].as_str().unwrap().to_string(),
                        verify: step.get("verify").map(|v| v.as_str().unwrap().to_string()),
                    });
                }
            }
            profiles.insert(id.clone(), Profile { description, steps });
        }
    }
    Config {
        version,
        allowlist,
        profiles,
    }
}

/// How the standard utilities the configurations call behave: `true` and
/// `false` exit with their names, `printf` writes its argument, `sleep` runs
/// past a shorter timeout.
fn simulate(command: &AllowedCommand) -> CommandOutcome {
    match command.command[0].as_str() {
        "true" => CommandOutcome::Exited {
            success: true,
            stdout: Vec::new(),
        },
        "false" => CommandOutcome::Exited {
            success: false,
            stdout: Vec::new(),
        },
        "printf" => CommandOutcome::Exited {
            success: true,
            stdout: command.command[1..].concat().into_bytes(),
        },
        "sleep" => {
            let seconds: u64 = command.command[1].parse().unwrap();
            if seconds > command.timeout_seconds {
                CommandOutcome::TimedOut
            } else {
                CommandOutcome::Exited {
                    success: true,
                    stdout: Vec::new(),
                }
            }
        }
        other => CommandOutcome::SpawnFailed(format!("{other}: not found")),
    }
}

/// Runs a drill to completion against the simulated utilities, returning the
/// card and the IDs of the commands that were executed, in order.
fn drive(
    config: &Config,
    profile: &str,
    live: bool,
    verify: bool,
) -> Result<(IncidentCard, Vec<String>), DrillError> {
    let mut run = run_drill(config, profile, live, verify)?;
    let mut executed = Vec::new();
    loop {
        match run.pending() {
            DrillAction::Execute {
                command_id,
                command,
            } => {
                executed.push(command_id.to_string());
                run = run.advance(DrillEvent::Outcome(simulate(command)));
            }
            DrillAction::CloseStep => {
                run = run.advance(DrillEvent::Closed { duration_ms: 7 });
            }
            DrillAction::Complete => break,
        }
    }
    Ok((run.finish(), executed))
}

fn card_of(config: &Config, profile: &str, live: bool, verify: bool) -> IncidentCard {
    drive(config, profile, live, verify).unwrap().0
}

fn config_message(error: DrillError) -> String {
    match error {
        DrillError::Config(message) => message,
        DrillError::Parse(error) => panic!("unexpected parse error: {error}"),
    }
}

/// The configuration example of the README.
const DOCUMENTED_EXAMPLE: &str = "version = 1

[allowlist.proxy_deny]
command = [\"./ops/proxy-deny\", \"agent:payments:write\"]
timeout_seconds = 20

[allowlist.proxy_check]
command = [\"./ops/proxy-status\", \"agent:payments:write\"]
expect_stdout = \"403\"
timeout_seconds = 20

[profiles.payments-write]
description = \"Withdraw the payments write capability.\"

[[profiles.payments-write.steps]]
name = \"Deny outbound tool traffic\"
action = \"proxy_deny\"
verify = \"proxy_check\"
";

const ONE_STEP: &str = "version=1\n[allowlist.act]\ncommand=[\"false\"]\n[allowlist.check]\ncommand=[\"true\"]\n[profiles.p]\ndescription=\"x\"\n[[profiles.p.steps]]\nname=\"x\"\naction=\"act\"\nverify=\"check\"\n";

#[test]
fn documented_example_validates() {
    let c = config_from_toml(DOCUMENTED_EXAMPLE);
    validate(&c).unwrap();
}

#[test]
fn rejects_unknown_command() {
    let s = "version=1\n[allowlist.a]\ncommand=[\"true\"]\n[profiles.p]\ndescription=\"x\"\n[[profiles.p.steps]]\nname=\"x\"\naction=\"nope\"\n";
    assert!(validate(&config_from_toml(s)).is_err());
}

#[test]
fn dry_run_executes_check_not_action() {
    let c = card_of(&config_from_toml(ONE_STEP), "p", false, true);
    assert!(c.all_confirmed);
    assert_eq!(c.checkpoints[0].action, State::Simulated);
}

#[test]
fn live_failed_action_prevents_confirmation() {
    let c = card_of(&config_from_toml(ONE_STEP), "p", true, true);
    assert!(!c.all_confirmed);
    assert_eq!(c.checkpoints[0].action, State::Failed);
}

#[test]
fn timed_out_verification_becomes_a_failed_checkpoint() {
    let s = "version=1\n[allowlist.act]\ncommand=[\"true\"]\n[allowlist.check]\ncommand=[\"sleep\", \"2\"]\ntimeout_seconds=1\n[profiles.p]\ndescription=\"x\"\n[[profiles.p.steps]]\nname=\"x\"\naction=\"act\"\nverify=\"check\"\n";
    let card = card_of(&config_from_toml(s), "p", false, true);
    assert!(!card.all_confirmed);
    assert_eq!(card.checkpoints[0].verification, State::Failed);
    assert!(card.checkpoints[0]
        .note
        .contains("timed out after 1 seconds"));
}

#[test]
fn reports_exclude_command_details_and_output() {
    let secret = "PROVIDER_SECRET=not-for-the-card";
    let s = format!(
        "version=1\n[allowlist.act]\ncommand=[\"true\"]\n[allowlist.check]\ncommand=[\"printf\", \"{secret}\"]\n[profiles.p]\ndescription=\"x\"\n[[profiles.p.steps]]\nname=\"x\"\naction=\"act\"\nverify=\"check\"\n"
    );
    let card = card_of(&config_from_toml(&s), "p", false, true);
    let mut report = vec![
        card.schema.to_string(),
        card.profile.clone(),
        card.description.clone(),
        card.mode.to_string(),
        card.report_safety.to_string(),
    ];
    for c in &card.checkpoints {
        report.push(c.name.clone());
        report.push(c.action_id.clone());
        report.push(c.verification_id.clone().unwrap_or_default());
        report.push(c.note.clone());
    }
    let report = report.join("\n");
    assert!(!report.contains(secret));
    assert!(!report.contains("printf"));
}

#[test]
fn dry_run_runs_only_the_verification_command() {
    let (card, executed) = drive(&config_from_toml(ONE_STEP), "p", false, true).unwrap();
    assert_eq!(executed, vec!["check".to_string()]);
    assert_eq!(
        card.checkpoints[0].note,
        "dry run: allowlisted action was not executed; control-plane response matched"
    );
    assert_eq!(card.mode, "dry_run");
    assert_eq!(card.checkpoints[0].duration_ms, 7);
}

#[test]
fn live_run_executes_action_then_verification() {
    let (card, executed) = drive(&config_from_toml(ONE_STEP), "p", true, true).unwrap();
    assert_eq!(executed, vec!["act".to_string(), "check".to_string()]);
    assert_eq!(card.mode, "live");
    assert_eq!(card.checkpoints[0].verification, State::Passed);
    assert_eq!(
        card.checkpoints[0].note,
        "command exited unsuccessfully; control-plane response matched"
    );
    assert_eq!(drill_exit_code(&card), 2);
}

#[test]
fn live_run_with_passing_commands_confirms() {
    let s = ONE_STEP.replace("command=[\"false\"]", "command=[\"true\"]");
    let card = card_of(&config_from_toml(&s), "p", true, true);
    assert!(card.all_confirmed);
    assert_eq!(card.checkpoints[0].action, State::Passed);
    assert_eq!(drill_exit_code(&card), 0);
}

#[test]
fn disabled_verification_is_skipped_and_never_confirms() {
    let (card, executed) = drive(&config_from_toml(ONE_STEP), "p", false, false).unwrap();
    assert!(executed.is_empty());
    assert_eq!(card.checkpoints[0].verification, State::Skipped);
    assert_eq!(
        card.checkpoints[0].note,
        "dry run: allowlisted action was not executed; verification disabled by operator"
    );
    assert!(!card.all_confirmed);
}

#[test]
fn step_without_verification_is_skipped() {
    let s = "version=1\n[allowlist.act]\ncommand=[\"true\"]\n[profiles.p]\ndescription=\"only an action\"\n[[profiles.p.steps]]\nname=\"one\"\naction=\"act\"\n[[profiles.p.steps]]\nname=\"two\"\naction=\"act\"\n";
    let card = card_of(&config_from_toml(s), "p", true, true);
    assert_eq!(card.checkpoints.len(), 2);
    assert_eq!(card.checkpoints[0].name, "one");
    assert_eq!(card.checkpoints[1].name, "two");
    assert_eq!(card.checkpoints[1].verification_id, None);
    assert_eq!(card.checkpoints[1].verification, State::Skipped);
    assert_eq!(
        card.checkpoints[1].note,
        "control-plane response matched; no verification command declared"
    );
    assert_eq!(card.description, "only an action");
    assert!(card.all_confirmed);
    assert_eq!(drill_exit_code(&card), 0);
}

#[test]
fn dry_run_without_declared_verifications_confirms() {
    let s = "version=1\n[allowlist.act]\ncommand=[\"false\"]\n[profiles.p]\ndescription=\"x\"\n[[profiles.p.steps]]\nname=\"one\"\naction=\"act\"\n";
    let (card, executed) = drive(&config_from_toml(s), "p", false, true).unwrap();
    assert!(executed.is_empty());
    assert_eq!(card.checkpoints[0].verification, State::Skipped);
    assert!(card.all_confirmed);
    assert_eq!(drill_exit_code(&card), 0);
}

#[test]
fn card_carries_the_schema_and_safety_statement() {
    let card = card_of(&config_from_toml(ONE_STEP), "p", false, true);
    assert_eq!(card.schema, "agent-kill-switch-drill/incident-card@v1");
    assert_eq!(card.profile, "p");
    assert_eq!(
        card.report_safety,
        "Command IDs and statuses only. Command lines, output, environment, and provider secrets are never included."
    );
    assert!(card.completed_at_unix >= card.started_at_unix);
}

#[test]
fn unknown_profile_is_refused() {
    let error = run_drill(&config_from_toml(ONE_STEP), "q", false, true)
        .err()
        .unwrap();
    assert_eq!(config_message(error), "profile `q` was not found");
}

#[test]
fn invalid_configuration_is_refused_before_running() {
    let s = ONE_STEP.replace("version=1", "version=2");
    let error = run_drill(&config_from_toml(&s), "p", false, true)
        .err()
        .unwrap();
    assert_eq!(config_message(error), "only version = 1 is supported");
}

#[test]
fn unexpected_events_change_nothing() {
    let config = config_from_toml(ONE_STEP);
    let run = run_drill(&config, "p", false, true).unwrap();
    // The dry run waits for the verification command, not for a duration.
    let run = run.advance(DrillEvent::Closed { duration_ms: 1 });
    assert!(matches!(
        run.pending(),
        DrillAction::Execute {
            command_id: "check",
            ..
        }
    ));
    let run = run.advance(DrillEvent::Outcome(CommandOutcome::Exited {
        success: true,
        stdout: Vec::new(),
    }));
    assert!(matches!(run.pending(), DrillAction::CloseStep));
    let run = run.advance(DrillEvent::Outcome(CommandOutcome::TimedOut));
    assert!(matches!(run.pending(), DrillAction::CloseStep));
    let run = run.advance(DrillEvent::Closed { duration_ms: 3 });
    assert!(matches!(run.pending(), DrillAction::Complete));
    let card = run.finish();
    assert_eq!(
        card.checkpoints[0].note,
        "dry run: allowlisted action was not executed; control-plane response matched"
    );
    assert!(card.all_confirmed);
}

fn valid_config() -> Config {
    config_from_toml(ONE_STEP)
}

#[test]
fn validation_messages_name_the_first_problem() {
    let cases = [
        (
            ONE_STEP.replace("version=1", "version=3"),
            "only version = 1 is supported",
        ),
        (
            "version=1\n[profiles.p]\ndescription=\"x\"\n".to_string(),
            "allowlist must not be empty",
        ),
        (
            "version=1\n[allowlist.a]\ncommand=[\"true\"]\n".to_string(),
            "profiles must not be empty",
        ),
        (
            ONE_STEP.replace("command=[\"false\"]", "command=[]"),
            "allowlist entry `act` needs a non-empty command array",
        ),
        (
            ONE_STEP.replace("command=[\"false\"]", "command=[\" \\t\"]"),
            "allowlist entry `act` needs a non-empty command array",
        ),
        (
            ONE_STEP.replace("command=[\"false\"]", "command=[\"false\"]\ntimeout_seconds=0"),
            "allowlist entry `act` needs timeout_seconds from 1 to 30",
        ),
        (
            ONE_STEP.replace("command=[\"true\"]", "command=[\"true\"]\ntimeout_seconds=31"),
            "allowlist entry `check` needs timeout_seconds from 1 to 30",
        ),
        (
            "version=1\n[allowlist.a]\ncommand=[\"true\"]\n[profiles.p]\ndescription=\"x\"\n"
                .to_string(),
            "profile `p` needs at least one step",
        ),
        (
            ONE_STEP.replace("name=\"x\"", "name=\"  \""),
            "profile `p` has an unnamed step",
        ),
        (
            ONE_STEP.replace("action=\"act\"", "action=\"gone\""),
            "step `x` references unknown action `gone`",
        ),
        (
            ONE_STEP.replace("verify=\"check\"", "verify=\"gone\""),
            "step `x` references unknown verification `gone`",
        ),
    ];
    for (source, expected) in cases {
        let error = validate(&config_from_toml(&source)).err().unwrap();
        assert_eq!(config_message(error), expected);
    }
    assert!(validate(&valid_config()).is_ok());
}

#[test]
fn allowlist_entries_are_checked_in_key_order() {
    let s = "version=1\n[allowlist.zeta]\ncommand=[]\n[allowlist.alpha]\ncommand=[\"true\"]\ntimeout_seconds=99\n[profiles.p]\ndescription=\"x\"\n[[profiles.p.steps]]\nname=\"x\"\naction=\"alpha\"\n";
    let error = validate(&config_from_toml(s)).err().unwrap();
    assert_eq!(
        config_message(error),
        "allowlist entry `alpha` needs timeout_seconds from 1 to 30"
    );
}

#[test]
fn default_timeout_is_thirty_seconds() {
    assert_eq!(default_timeout_seconds(), 30);
    let c = valid_config();
    assert_eq!(c.allowlist.get("act").unwrap().timeout_seconds, 30);
}

#[test]
fn every_awaited_event_moves_the_run_forward() {
    let s = "version=1\n[allowlist.act]\ncommand=[\"true\"]\n[allowlist.check]\ncommand=[\"true\"]\n[profiles.p]\ndescription=\"x\"\n[[profiles.p.steps]]\nname=\"a\"\naction=\"act\"\nverify=\"check\"\n[[profiles.p.steps]]\nname=\"b\"\naction=\"act\"\nverify=\"check\"\n";
    let config = config_from_toml(s);
    let mut run = run_drill(&config, "p", true, true).unwrap();
    let mut events = 0;
    loop {
        match run.pending() {
            DrillAction::Execute { command, .. } => {
                run = run.advance(DrillEvent::Outcome(simulate(command)));
            }
            DrillAction::CloseStep => run = run.advance(DrillEvent::Closed { duration_ms: 1 }),
            DrillAction::Complete => break,
        }
        events += 1;
    }
    assert_eq!(events, 6);
    let card = run.finish();
    assert_eq!(card.checkpoints.len(), 2);
    assert!(card.all_confirmed);
}
