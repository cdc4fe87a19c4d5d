//! Allowlisted, staged capability-stop drills: the configuration and its
//! checks, the step logic of a drill, the results of the commands it runs, and
//! the incident card that records each control check.

pub mod command;
pub mod config;
pub mod drill;
pub mod report;
pub mod table;
pub mod text;

pub use command::{
    append_capped, command_result, wait_step, CommandOutcome, WaitStatus, WaitStep,
    MAX_CAPTURED_STDOUT_BYTES, POLL_INTERVAL_MS,
};
pub use config::{
    default_timeout_seconds, validate, AllowedCommand, Config, DrillError, Profile, Step,
    DEFAULT_TIMEOUT_SECONDS, MAX_TIMEOUT_SECONDS,
};
pub use drill::{
    run_drill, Checkpoint, DrillAction, DrillEvent, DrillRun, IncidentCard, Phase, State,
};
pub use report::{
    check_live_confirmation, drill_exit_code, render_card, validation_summary,
};
pub use table::Table;
