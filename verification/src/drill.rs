//! A drill run: the steps of one profile, taken in order, each an action and
//! an optional verification, recorded as checkpoints of an incident card.
//!
//! The run decides what happens; the caller does the outside work. It asks
//! the run what is pending (`DrillRun::pending`), runs the named command or
//! times the step, and hands the result back (`DrillRun::advance`). When
//! nothing is pending, `DrillRun::finish` writes the incident card.

use crate::config::{
    config_error, lemma_valid_config, step_is_sound, validate, AllowedCommand, Config, DrillError,
    Profile, Step,
};
use crate::command::{
    command_result, commands_agree, lemma_result_ignores_argv_and_output, outcome_result,
    outcomes_agree, CommandOutcome,
};
use crate::table::{contains_key, has_entry, lookup, lookup_from};
use crate::text::{decimal_text, join3, opt_text};
use std::time::{SystemTime, UNIX_EPOCH};
use vstd::prelude::*;

verus! {

/// The state of one half (action or verification) of a checkpoint.
#[derive(Debug, Clone, Copy, PartialEq, Eq, Structural)]
pub enum State {
    /// Dry run: the action was not executed.
    Simulated,
    Passed,
    Failed,
    /// No verification ran.
    Skipped,
}

/// The record of one step.
#[derive(Debug, Clone)]
pub struct Checkpoint {
    pub name: String,
    pub action_id: String,
    pub action: State,
    pub verification_id: Option<String>,
    pub verification: State,
    pub duration_ms: u128,
    pub note: String,
}

/// A checkpoint with its texts as character sequences.
#[verifier::ext_equal]
pub struct CheckpointView {
    pub name: Seq<char>,
    pub action_id: Seq<char>,
    pub action: State,
    pub verification_id: Option<Seq<char>>,
    pub verification: State,
    pub duration_ms: u128,
    pub note: Seq<char>,
}

impl View for Checkpoint {
    type V = CheckpointView;

    open spec fn view(&self) -> CheckpointView {
        CheckpointView {
            name: self.name@,
            action_id: self.action_id@,
            action: self.action,
            verification_id: opt_text(self.verification_id),
            verification: self.verification,
            duration_ms: self.duration_ms,
            note: self.note@,
        }
    }
}

/// The views of a list of checkpoints.
pub open spec fn checkpoint_views(cs: Seq<Checkpoint>) -> Seq<CheckpointView> {
    cs.map_values(|c: Checkpoint| c@)
}

/// The scrubbed record of one drill.
#[derive(Debug, Clone)]
pub struct IncidentCard {
    pub schema: &'static str,
    pub profile: String,
    pub description: String,
    pub mode: &'static str,
    pub started_at_unix: u64,
    pub completed_at_unix: u64,
    pub all_confirmed: bool,
    pub checkpoints: Vec<Checkpoint>,
    pub report_safety: &'static str,
}

/// An incident card with its texts as character sequences.
#[verifier::ext_equal]
pub struct IncidentCardView {
    pub schema: Seq<char>,
    pub profile: Seq<char>,
    pub description: Seq<char>,
    pub mode: Seq<char>,
    pub started_at_unix: u64,
    pub completed_at_unix: u64,
    pub all_confirmed: bool,
    pub checkpoints: Seq<CheckpointView>,
    pub report_safety: Seq<char>,
}

impl View for IncidentCard {
    type V = IncidentCardView;

    open spec fn view(&self) -> IncidentCardView {
        IncidentCardView {
            schema: self.schema@,
            profile: self.profile@,
            description: self.description@,
            mode: self.mode@,
            started_at_unix: self.started_at_unix,
            completed_at_unix: self.completed_at_unix,
            all_confirmed: self.all_confirmed,
            checkpoints: checkpoint_views(self.checkpoints@),
            report_safety: self.report_safety@,
        }
    }
}

/// Where a run stands within its current step.
#[derive(Debug, Clone, Copy, PartialEq, Eq, Structural)]
pub enum Phase {
    /// Live: the step's action command is to run.
    AwaitAction,
    /// The step's verification command is to run.
    AwaitVerification,
    /// The step is decided; its duration is to be reported.
    AwaitClose,
    /// Every step is recorded.
    Done,
}

/// What the caller is to do next.
#[derive(Debug)]
pub enum DrillAction<'a> {
    /// Run the allowlisted command `command_id` and report its result.
    Execute { command_id: &'a str, command: &'a AllowedCommand },
    /// Report how long the current step took.
    CloseStep,
    /// Nothing is left to run; write the incident card.
    Complete,
}

/// What the caller reports back.
#[derive(Debug)]
pub enum DrillEvent {
    /// The command that was asked for ran and ended this way.
    Outcome(CommandOutcome),
    /// The current step took `duration_ms` milliseconds.
    Closed { duration_ms: u128 },
}

/// The state of a run, with its texts as character sequences.
#[verifier::ext_equal]
pub struct DrillView {
    pub config: Config,
    pub profile_id: Seq<char>,
    pub profile: Profile,
    pub live: bool,
    pub verify: bool,
    pub started_at_unix: u64,
    /// The checkpoints of the steps done so far, one per step, in order.
    pub checkpoints: Seq<CheckpointView>,
    pub phase: Phase,
    /// The action state of the current step, once decided.
    pub action: State,
    pub action_note: Seq<char>,
    /// The verification state of the current step, once decided.
    pub verification: State,
    pub note: Seq<char>,
}

/// The step that the run is at.
pub open spec fn current_step(v: DrillView) -> Step {
    v.profile.steps@[v.checkpoints.len() as int]
}

/// The state that a command result gives.
pub open spec fn outcome_state(ok: bool) -> State {
    if ok {
        State::Passed
    } else {
        State::Failed
    }
}

/// Once the action of the current step is decided: run its verification,
/// or record why none runs.
pub open spec fn after_action(v: DrillView) -> DrillView {
    match current_step(v).verify {
        None => DrillView {
            verification: State::Skipped,
            note: v.action_note + "; no verification command declared"@,
            phase: Phase::AwaitClose,
            ..v
        },
        Some(_) => if v.verify {
            DrillView { phase: Phase::AwaitVerification, ..v }
        } else {
            DrillView {
                verification: State::Skipped,
                note: v.action_note + "; verification disabled by operator"@,
                phase: Phase::AwaitClose,
                ..v
            }
        },
    }
}

/// At the start of a step: finished when no step is left; live runs run the
/// action; dry runs simulate it and go on to the verification.
pub open spec fn begin_step(v: DrillView) -> DrillView {
    if v.checkpoints.len() >= v.profile.steps@.len() {
        DrillView { phase: Phase::Done, ..v }
    } else if v.live {
        DrillView { phase: Phase::AwaitAction, ..v }
    } else {
        after_action(
            DrillView {
                action: State::Simulated,
                action_note: "dry run: allowlisted action was not executed"@,
                ..v
            },
        )
    }
}

/// The checkpoint that closes the current step.
pub open spec fn recorded(v: DrillView, duration_ms: u128) -> CheckpointView {
    let step = current_step(v);
    CheckpointView {
        name: step.name@,
        action_id: step.action@,
        action: v.action,
        verification_id: opt_text(step.verify),
        verification: v.verification,
        duration_ms,
        note: v.note,
    }
}

/// The ID of the command that the run awaits the outcome of: the current
/// step's action, or its verification.
pub open spec fn pending_id(v: DrillView) -> Seq<char> {
    if v.phase is AwaitAction {
        current_step(v).action@
    } else {
        match current_step(v).verify {
            Some(id) => id@,
            None => Seq::empty(),
        }
    }
}

/// The allowlisted command of that ID.
pub open spec fn pending_command(v: DrillView) -> AllowedCommand {
    match lookup(v.config.allowlist@, pending_id(v)) {
        Some(c) => c,
        None => arbitrary(),
    }
}

/// The result and note of the pending command, given how it ended.
pub open spec fn pending_result(v: DrillView, o: CommandOutcome) -> (bool, Seq<char>) {
    outcome_result(pending_id(v), pending_command(v), o)
}

/// The state after `e`. An event that the phase does not await changes nothing.
pub open spec fn next_view(v: DrillView, e: DrillEvent) -> DrillView {
    match e {
        DrillEvent::Outcome(o) => match v.phase {
            Phase::AwaitAction => after_action(
                DrillView {
                    action: outcome_state(pending_result(v, o).0),
                    action_note: pending_result(v, o).1,
                    ..v
                },
            ),
            Phase::AwaitVerification => DrillView {
                verification: outcome_state(pending_result(v, o).0),
                note: v.action_note + "; "@ + pending_result(v, o).1,
                phase: Phase::AwaitClose,
                ..v
            },
            _ => v,
        },
        DrillEvent::Closed { duration_ms } => match v.phase {
            Phase::AwaitClose => begin_step(
                DrillView { checkpoints: v.checkpoints.push(recorded(v, duration_ms)), ..v },
            ),
            _ => v,
        },
    }
}

/// The state of a run that has just started.
pub open spec fn start_view(
    config: Config,
    profile_id: Seq<char>,
    profile: Profile,
    live: bool,
    verify: bool,
    started_at_unix: u64,
) -> DrillView {
    begin_step(
        DrillView {
            config,
            profile_id,
            profile,
            live,
            verify,
            started_at_unix,
            checkpoints: Seq::empty(),
            phase: Phase::Done,
            action: State::Simulated,
            action_note: Seq::empty(),
            verification: State::Skipped,
            note: Seq::empty(),
        },
    )
}

/// A checkpoint that confirms: its declared verification passed (a step that
/// declares none has nothing to confirm; one that was declared but disabled
/// does not confirm), and the action passed (live) or was simulated (dry run).
pub open spec fn confirmed(c: CheckpointView, live: bool) -> bool {
    &&& (c.verification is Passed || c.verification_id is None)
    &&& if live {
        c.action is Passed
    } else {
        c.action is Simulated
    }
}

/// Every checkpoint confirms.
pub open spec fn all_confirmed(cs: Seq<CheckpointView>, live: bool) -> bool {
    forall|i: int| 0 <= i < cs.len() ==> confirmed(#[trigger] cs[i], live)
}

/// The incident card of a run, completed at `completed_at_unix`.
pub open spec fn card_of(v: DrillView, completed_at_unix: u64) -> IncidentCardView {
    IncidentCardView {
        schema: "agent-kill-switch-drill/incident-card@v1"@,
        profile: v.profile_id,
        description: v.profile.description@,
        mode: if v.live {
            "live"@
        } else {
            "dry_run"@
        },
        started_at_unix: v.started_at_unix,
        completed_at_unix,
        all_confirmed: all_confirmed(v.checkpoints, v.live),
        checkpoints: v.checkpoints,
        report_safety: "Command IDs and statuses only. Command lines, output, environment, and provider secrets are never included."@,
    }
}

/// A checkpoint records step `s`: its name and IDs, an action that was run
/// (live) or simulated (dry run), and a verification that is skipped exactly
/// when the step declares none or verification is disabled.
pub open spec fn checkpoint_follows(c: CheckpointView, s: Step, live: bool, verify: bool) -> bool {
    &&& c.name == s.name@
    &&& c.action_id == s.action@
    &&& c.verification_id == opt_text(s.verify)
    &&& if live {
        c.action is Passed || c.action is Failed
    } else {
        c.action is Simulated
    }
    &&& (c.verification is Skipped) == (s.verify is None || !verify)
    &&& (c.verification is Skipped || c.verification is Passed || c.verification is Failed)
}

/// What holds of a run at every stage, whatever steps and results came before.
pub open spec fn run_base(v: DrillView) -> bool {
    &&& config_error(v.config) is None
    &&& has_entry(v.config.profiles@, v.profile_id, v.profile)
    &&& v.checkpoints.len() <= v.profile.steps@.len()
    &&& forall|i: int|
        0 <= i < v.checkpoints.len() ==> checkpoint_follows(
            #[trigger] v.checkpoints[i],
            v.profile.steps@[i],
            v.live,
            v.verify,
        )
}

/// The decided action of the current step follows the mode.
pub open spec fn action_decided(v: DrillView) -> bool {
    if v.live {
        v.action is Passed || v.action is Failed
    } else {
        v.action is Simulated
    }
}

/// The run's invariant.
pub open spec fn run_wf(v: DrillView) -> bool {
    &&& run_base(v)
    &&& (v.phase is Done) == (v.checkpoints.len() == v.profile.steps@.len())
    &&& v.phase is AwaitAction ==> v.live
    &&& v.phase is AwaitVerification ==> {
        &&& action_decided(v)
        &&& current_step(v).verify is Some
        &&& v.verify
    }
    &&& v.phase is AwaitClose ==> {
        &&& action_decided(v)
        &&& (v.verification is Skipped) == (current_step(v).verify is None || !v.verify)
        &&& (v.verification is Skipped || v.verification is Passed || v.verification
            is Failed)
    }
}

proof fn lemma_after_action_wf(v: DrillView)
    requires
        run_base(v),
        v.checkpoints.len() < v.profile.steps@.len(),
        action_decided(v),
    ensures
        run_wf(after_action(v)),
{
}

proof fn lemma_begin_step_wf(v: DrillView)
    requires
        run_base(v),
    ensures
        run_wf(begin_step(v)),
{
    if v.checkpoints.len() < v.profile.steps@.len() && !v.live {
        lemma_after_action_wf(
            DrillView {
                action: State::Simulated,
                action_note: "dry run: allowlisted action was not executed"@,
                ..v
            },
        );
    }
}

/// Every event keeps the run's invariant: checkpoints are recorded one per
/// step, in order, and each follows its step and the run's mode.
pub proof fn lemma_next_keeps_wf(v: DrillView, e: DrillEvent)
    requires
        run_wf(v),
    ensures
        run_wf(next_view(v, e)),
{
    match e {
        DrillEvent::Outcome(o) => {
            if v.phase is AwaitAction {
                lemma_after_action_wf(
                    DrillView {
                        action: outcome_state(pending_result(v, o).0),
                        action_note: pending_result(v, o).1,
                        ..v
                    },
                );
            }
        },
        DrillEvent::Closed { duration_ms } => {
            if v.phase is AwaitClose {
                let w = DrillView { checkpoints: v.checkpoints.push(recorded(v, duration_ms)), ..v };
                assert forall|i: int| 0 <= i < w.checkpoints.len() implies checkpoint_follows(
                    #[trigger] w.checkpoints[i],
                    w.profile.steps@[i],
                    w.live,
                    w.verify,
                ) by {
                    if i < v.checkpoints.len() {
                        assert(w.checkpoints[i] == v.checkpoints[i]);
                    }
                }
                lemma_begin_step_wf(w);
            }
        },
    }
}

/// The steps of the profile of a valid run are sound and there is one at least.
proof fn lemma_run_steps_sound(v: DrillView)
    requires
        run_base(v),
    ensures
        v.profile.steps@.len() > 0,
        forall|k: int|
            0 <= k < v.profile.steps@.len() ==> step_is_sound(
                v.config.allowlist@,
                #[trigger] v.profile.steps@[k],
            ),
{
    lemma_valid_config(v.config);
    let j = choose|j: int|
        0 <= j < v.config.profiles@.len() && #[trigger] v.config.profiles@[j] == (
            v.profile_id,
            v.profile,
        );
    assert(v.config.profiles@[j].1 == v.profile);
    assert forall|k: int| 0 <= k < v.profile.steps@.len() implies step_is_sound(
        v.config.allowlist@,
        #[trigger] v.profile.steps@[k],
    ) by {
        assert(v.profile.steps@[k] == v.config.profiles@[j].1.steps@[k]);
    }
}

/// An action that failed keeps a drill from confirming.
pub proof fn lemma_failed_action_blocks_confirmation(cs: Seq<CheckpointView>, live: bool, i: int)
    requires
        0 <= i < cs.len(),
        cs[i].action is Failed,
    ensures
        !all_confirmed(cs, live),
{
    assert(!confirmed(cs[i], live));
}

/// A declared verification that did not pass (it failed, timed out, or was
/// disabled) keeps a drill from confirming.
pub proof fn lemma_unpassed_verification_blocks_confirmation(
    cs: Seq<CheckpointView>,
    live: bool,
    i: int,
)
    requires
        0 <= i < cs.len(),
        cs[i].verification_id is Some,
        !(cs[i].verification is Passed),
    ensures
        !all_confirmed(cs, live),
{
    assert(!confirmed(cs[i], live));
}

/// A dry run confirms exactly when every declared verification passed: its
/// actions are all simulated.
pub proof fn lemma_dry_run_confirmation(v: DrillView)
    requires
        run_wf(v),
        !v.live,
    ensures
        all_confirmed(v.checkpoints, v.live) <==> (forall|i: int|
            0 <= i < v.checkpoints.len() ==> (#[trigger] v.checkpoints[i]).verification is Passed
                || v.checkpoints[i].verification_id is None),
{
    assert forall|i: int| 0 <= i < v.checkpoints.len() implies (
    #[trigger] v.checkpoints[i]).action is Simulated by {
        assert(checkpoint_follows(v.checkpoints[i], v.profile.steps@[i], v.live, v.verify));
    }
}

/// A finished drill with verification disabled never confirms when one of its
/// steps declares a verification: that verification is skipped.
pub proof fn lemma_disabled_verification_never_confirms(v: DrillView, k: int)
    requires
        run_wf(v),
        !v.verify,
        v.phase is Done,
        0 <= k < v.profile.steps@.len(),
        v.profile.steps@[k].verify is Some,
    ensures
        !all_confirmed(v.checkpoints, v.live),
{
    assert(checkpoint_follows(v.checkpoints[k], v.profile.steps@[k], v.live, v.verify));
    assert(!confirmed(v.checkpoints[k], v.live));
}

/// A verification that timed out becomes a failed checkpoint whose note says
/// so, and the drill does not confirm.
pub proof fn lemma_timeout_becomes_failed_checkpoint(v: DrillView, duration_ms: u128)
    requires
        run_wf(v),
        v.phase is AwaitVerification,
    ensures
        ({
            let w = next_view(
                next_view(v, DrillEvent::Outcome(CommandOutcome::TimedOut)),
                DrillEvent::Closed { duration_ms },
            );
            &&& w.checkpoints.len() == v.checkpoints.len() + 1
            &&& w.checkpoints[v.checkpoints.len() as int].verification is Failed
            &&& w.checkpoints[v.checkpoints.len() as int].note == v.action_note + "; "@
                + "declared command `"@ + pending_id(v) + "` timed out after "@ + decimal_text(
                pending_command(v).timeout_seconds as nat,
            ) + " seconds"@
            &&& !all_confirmed(w.checkpoints, w.live)
        }),
{
    let u = next_view(v, DrillEvent::Outcome(CommandOutcome::TimedOut));
    let w = next_view(u, DrillEvent::Closed { duration_ms });
    let x = DrillView { checkpoints: u.checkpoints.push(recorded(u, duration_ms)), ..u };
    assert(w.checkpoints == x.checkpoints);
    assert(!confirmed(w.checkpoints[v.checkpoints.len() as int], w.live));
}

/// Closing a step records exactly what the step settled, with the duration
/// the caller reported for that step alone, after the checkpoints already
/// recorded, which stay as they were.
pub proof fn lemma_closed_records_reported_duration(v: DrillView, duration_ms: u128)
    requires
        v.phase is AwaitClose,
    ensures
        ({
            let w = next_view(v, DrillEvent::Closed { duration_ms });
            let c = w.checkpoints[v.checkpoints.len() as int];
            &&& w.checkpoints.len() == v.checkpoints.len() + 1
            &&& w.checkpoints.take(v.checkpoints.len() as int) == v.checkpoints
            &&& c.duration_ms == duration_ms
            &&& c.name == current_step(v).name@
            &&& c.action_id == current_step(v).action@
            &&& c.verification_id == opt_text(current_step(v).verify)
            &&& c.action == v.action
            &&& c.verification == v.verification
            &&& c.note == v.note
        }),
{
    let w = next_view(v, DrillEvent::Closed { duration_ms });
    assert(w.checkpoints.take(v.checkpoints.len() as int) =~= v.checkpoints);
}

/// Recorded checkpoints are never changed: every event keeps them, and
/// appends one at most.
pub proof fn lemma_checkpoints_only_grow(v: DrillView, e: DrillEvent)
    ensures
        ({
            let w = next_view(v, e);
            &&& v.checkpoints.len() <= w.checkpoints.len() <= v.checkpoints.len() + 1
            &&& w.checkpoints.take(v.checkpoints.len() as int) == v.checkpoints
        }),
{
    let w = next_view(v, e);
    assert(w.checkpoints.take(v.checkpoints.len() as int) =~= v.checkpoints);
}

/// The work a run still awaits: three units for each step left, less what
/// the current step has settled.
pub open spec fn work_left(v: DrillView) -> int {
    3 * (v.profile.steps@.len() - v.checkpoints.len()) + match v.phase {
        Phase::AwaitAction => 0int,
        Phase::AwaitVerification => -1int,
        Phase::AwaitClose => -2int,
        Phase::Done => 0int,
    }
}

/// The event that the run's phase awaits.
pub open spec fn awaited(v: DrillView, e: DrillEvent) -> bool {
    match e {
        DrillEvent::Outcome { .. } => v.phase is AwaitAction || v.phase is AwaitVerification,
        DrillEvent::Closed { .. } => v.phase is AwaitClose,
    }
}

/// Every awaited event brings the run closer to its end, so a run reaches
/// `Done` after finitely many events.
pub proof fn lemma_awaited_event_progresses(v: DrillView, e: DrillEvent)
    requires
        run_wf(v),
        awaited(v, e),
    ensures
        0 <= work_left(next_view(v, e)) < work_left(v),
{
}

/// Two configurations that differ at most in the argv of their allowlisted
/// commands.
pub open spec fn configs_agree(c1: Config, c2: Config) -> bool {
    &&& c1.version == c2.version
    &&& c1.profiles@ == c2.profiles@
    &&& c1.allowlist@.len() == c2.allowlist@.len()
    &&& forall|i: int|
        0 <= i < c1.allowlist@.len() ==> #[trigger] c1.allowlist@[i].0 == c2.allowlist@[i].0
            && commands_agree(c1.allowlist@[i].1, c2.allowlist@[i].1)
}

/// Two checkpoints that are equal but for their durations.
pub open spec fn checkpoints_agree(a: CheckpointView, b: CheckpointView) -> bool {
    &&& a.name == b.name
    &&& a.action_id == b.action_id
    &&& a.action == b.action
    &&& a.verification_id == b.verification_id
    &&& a.verification == b.verification
    &&& a.note == b.note
}

/// Two runs that are equal but for the argv of the commands, the start time,
/// and the durations of the steps.
pub open spec fn views_agree(v1: DrillView, v2: DrillView) -> bool {
    &&& configs_agree(v1.config, v2.config)
    &&& v1.profile_id == v2.profile_id
    &&& v1.profile == v2.profile
    &&& v1.live == v2.live
    &&& v1.verify == v2.verify
    &&& v1.phase == v2.phase
    &&& v1.action == v2.action
    &&& v1.action_note == v2.action_note
    &&& v1.verification == v2.verification
    &&& v1.note == v2.note
    &&& v1.checkpoints.len() == v2.checkpoints.len()
    &&& forall|i: int|
        0 <= i < v1.checkpoints.len() ==> checkpoints_agree(
            #[trigger] v1.checkpoints[i],
            v2.checkpoints[i],
        )
}

/// Two events that tell the same story to run `v`: two durations, or two
/// outcomes of its pending command that agree on everything but output text.
pub open spec fn events_agree(v: DrillView, e1: DrillEvent, e2: DrillEvent) -> bool {
    match (e1, e2) {
        (DrillEvent::Outcome(o1), DrillEvent::Outcome(o2)) => outcomes_agree(
            opt_text(pending_command(v).expect_stdout),
            o1,
            o2,
        ),
        (DrillEvent::Closed { .. }, DrillEvent::Closed { .. }) => true,
        _ => false,
    }
}

/// The run after the events `es`, in order.
pub open spec fn run_events(v: DrillView, es: Seq<DrillEvent>) -> DrillView
    decreases es.len(),
{
    if es.len() == 0 {
        v
    } else {
        run_events(next_view(v, es[0]), es.drop_first())
    }
}

/// Two event sequences that tell the same story, event by event, to the run
/// that starts at `v`.
pub open spec fn traces_agree(v: DrillView, es1: Seq<DrillEvent>, es2: Seq<DrillEvent>) -> bool
    decreases es1.len(),
{
    &&& es1.len() == es2.len()
    &&& es1.len() > 0 ==> {
        &&& events_agree(v, es1[0], es2[0])
        &&& traces_agree(next_view(v, es1[0]), es1.drop_first(), es2.drop_first())
    }
}

/// Two cards that are equal but for their times and durations.
pub open spec fn cards_agree(k1: IncidentCardView, k2: IncidentCardView) -> bool {
    &&& k1.schema == k2.schema
    &&& k1.profile == k2.profile
    &&& k1.description == k2.description
    &&& k1.mode == k2.mode
    &&& k1.all_confirmed == k2.all_confirmed
    &&& k1.report_safety == k2.report_safety
    &&& k1.checkpoints.len() == k2.checkpoints.len()
    &&& forall|i: int|
        0 <= i < k1.checkpoints.len() ==> checkpoints_agree(
            #[trigger] k1.checkpoints[i],
            k2.checkpoints[i],
        )
}

proof fn lemma_lookup_agree(
    a1: Seq<(Seq<char>, AllowedCommand)>,
    a2: Seq<(Seq<char>, AllowedCommand)>,
    k: Seq<char>,
    i: int,
)
    requires
        a1.len() == a2.len(),
        forall|j: int|
            0 <= j < a1.len() ==> #[trigger] a1[j].0 == a2[j].0 && commands_agree(
                a1[j].1,
                a2[j].1,
            ),
    ensures
        (lookup_from(a1, k, i) is Some) == (lookup_from(a2, k, i) is Some),
        lookup_from(a1, k, i) matches Some(c1) ==> lookup_from(a2, k, i) matches Some(c2)
            && commands_agree(c1, c2),
    decreases a1.len() - i,
{
    if 0 <= i < a1.len() {
        assert(a1[i].0 == a2[i].0);
        lemma_lookup_agree(a1, a2, k, i + 1);
    }
}

proof fn lemma_pending_agree(v1: DrillView, v2: DrillView, o1: CommandOutcome, o2: CommandOutcome)
    requires
        views_agree(v1, v2),
        outcomes_agree(opt_text(pending_command(v1).expect_stdout), o1, o2),
    ensures
        pending_id(v1) == pending_id(v2),
        pending_result(v1, o1) == pending_result(v2, o2),
{
    let a1 = v1.config.allowlist@;
    let a2 = v2.config.allowlist@;
    assert forall|j: int| 0 <= j < a1.len() implies #[trigger] a1[j].0 == a2[j].0
        && commands_agree(a1[j].1, a2[j].1) by {
        assert(v1.config.allowlist@[j].0 == v2.config.allowlist@[j].0);
    }
    lemma_lookup_agree(a1, a2, pending_id(v1), 0);
    lemma_result_ignores_argv_and_output(
        pending_id(v1),
        pending_command(v1),
        pending_command(v2),
        o1,
        o2,
    );
}

proof fn lemma_begin_step_agree(v1: DrillView, v2: DrillView)
    requires
        views_agree(v1, v2),
    ensures
        views_agree(begin_step(v1), begin_step(v2)),
{
}

/// Runs that agree stay in agreement under events that agree.
pub proof fn lemma_agreement_step(v1: DrillView, v2: DrillView, e1: DrillEvent, e2: DrillEvent)
    requires
        views_agree(v1, v2),
        events_agree(v1, e1, e2),
    ensures
        views_agree(next_view(v1, e1), next_view(v2, e2)),
{
    match (e1, e2) {
        (DrillEvent::Outcome(o1), DrillEvent::Outcome(o2)) => {
            lemma_pending_agree(v1, v2, o1, o2);
        },
        (DrillEvent::Closed { duration_ms: d1 }, DrillEvent::Closed { duration_ms: d2 }) => {
            if v1.phase is AwaitClose {
                let w1 = DrillView { checkpoints: v1.checkpoints.push(recorded(v1, d1)), ..v1 };
                let w2 = DrillView { checkpoints: v2.checkpoints.push(recorded(v2, d2)), ..v2 };
                assert forall|i: int| 0 <= i < w1.checkpoints.len() implies checkpoints_agree(
                    #[trigger] w1.checkpoints[i],
                    w2.checkpoints[i],
                ) by {
                    if i < v1.checkpoints.len() {
                        assert(w1.checkpoints[i] == v1.checkpoints[i]);
                        assert(w2.checkpoints[i] == v2.checkpoints[i]);
                    }
                }
                lemma_begin_step_agree(w1, w2);
            }
        },
        _ => {},
    }
}

proof fn lemma_agreement_run(v1: DrillView, v2: DrillView, es1: Seq<DrillEvent>, es2: Seq<
    DrillEvent,
>)
    requires
        views_agree(v1, v2),
        traces_agree(v1, es1, es2),
    ensures
        views_agree(run_events(v1, es1), run_events(v2, es2)),
    decreases es1.len(),
{
    if es1.len() > 0 {
        lemma_agreement_step(v1, v2, es1[0], es2[0]);
        lemma_agreement_run(
            next_view(v1, es1[0]),
            next_view(v2, es2[0]),
            es1.drop_first(),
            es2.drop_first(),
        );
    }
}

/// Command lines and command output never reach the card. Two drills of the
/// same profile, over configurations that differ only in the argv of their
/// commands, whose commands end alike (the same failures, or exits with the
/// same status whose outputs agree on holding the expected response), give
/// cards that are equal but for their times and durations.
pub proof fn lemma_argv_and_output_never_reach_the_card(
    c1: Config,
    c2: Config,
    profile_id: Seq<char>,
    profile: Profile,
    live: bool,
    verify: bool,
    started1: u64,
    started2: u64,
    es1: Seq<DrillEvent>,
    es2: Seq<DrillEvent>,
    completed1: u64,
    completed2: u64,
)
    requires
        configs_agree(c1, c2),
        traces_agree(start_view(c1, profile_id, profile, live, verify, started1), es1, es2),
    ensures
        cards_agree(
            card_of(
                run_events(start_view(c1, profile_id, profile, live, verify, started1), es1),
                completed1,
            ),
            card_of(
                run_events(start_view(c2, profile_id, profile, live, verify, started2), es2),
                completed2,
            ),
        ),
{
    let v1 = start_view(c1, profile_id, profile, live, verify, started1);
    let v2 = start_view(c2, profile_id, profile, live, verify, started2);
    let x1 = DrillView {
        config: c1,
        profile_id,
        profile,
        live,
        verify,
        started_at_unix: started1,
        checkpoints: Seq::empty(),
        phase: Phase::Done,
        action: State::Simulated,
        action_note: Seq::empty(),
        verification: State::Skipped,
        note: Seq::empty(),
    };
    let x2 = DrillView { config: c2, started_at_unix: started2, ..x1 };
    lemma_begin_step_agree(x1, x2);
    lemma_agreement_run(v1, v2, es1, es2);
    let w1 = run_events(v1, es1);
    let w2 = run_events(v2, es2);
    assert forall|i: int| 0 <= i < w1.checkpoints.len() implies #[trigger] confirmed(
        w1.checkpoints[i],
        w1.live,
    ) == confirmed(w2.checkpoints[i], w2.live) by {
        assert(checkpoints_agree(w1.checkpoints[i], w2.checkpoints[i]));
    }
    if all_confirmed(w1.checkpoints, w1.live) {
        assert forall|i: int| 0 <= i < w2.checkpoints.len() implies confirmed(
            #[trigger] w2.checkpoints[i],
            w2.live,
        ) by {
            assert(confirmed(w1.checkpoints[i], w1.live));
        }
    }
    if all_confirmed(w2.checkpoints, w2.live) {
        assert forall|i: int| 0 <= i < w1.checkpoints.len() implies confirmed(
            #[trigger] w1.checkpoints[i],
            w1.live,
        ) by {
            assert(confirmed(w2.checkpoints[i], w2.live));
        }
    }
}

/// Calls `SystemTime::now()` and reads it as whole seconds since the Unix
/// epoch (0 when the clock is set before it). Nothing is stated of the value:
/// it is the machine's clock.
#[verifier::external_body]
fn now() -> u64 {
    SystemTime::now().duration_since(UNIX_EPOCH).unwrap_or_default().as_secs()
}

struct Progress<'a> {
    config: &'a Config,
    profile_id: String,
    profile: &'a Profile,
    live: bool,
    verify: bool,
    started_at_unix: u64,
    checkpoints: Vec<Checkpoint>,
    phase: Phase,
    action: State,
    action_note: String,
    verification: State,
    note: String,
}

impl<'a> View for Progress<'a> {
    type V = DrillView;

    closed spec fn view(&self) -> DrillView {
        DrillView {
            config: *self.config,
            profile_id: self.profile_id@,
            profile: *self.profile,
            live: self.live,
            verify: self.verify,
            started_at_unix: self.started_at_unix,
            checkpoints: checkpoint_views(self.checkpoints@),
            phase: self.phase,
            action: self.action,
            action_note: self.action_note@,
            verification: self.verification,
            note: self.note@,
        }
    }
}

impl<'a> Progress<'a> {
    fn after_action(&mut self)
        requires
            old(self).checkpoints@.len() < old(self).profile.steps@.len(),
        ensures
            final(self)@ == after_action(old(self)@),
    {
        let profile: &'a Profile = self.profile;
        let step = &profile.steps[self.checkpoints.len()];
        match &step.verify {
            None => {
                self.verification = State::Skipped;
                self.note = self.action_note.clone().concat("; no verification command declared");
            },
            Some(_) => {
                if self.verify {
                    self.phase = Phase::AwaitVerification;
                    return ;
                }
                self.verification = State::Skipped;
                self.note = self.action_note.clone().concat("; verification disabled by operator");
            },
        }
        self.phase = Phase::AwaitClose;
    }

    fn begin_step(&mut self)
        ensures
            final(self)@ == begin_step(old(self)@),
    {
        if self.checkpoints.len() >= self.profile.steps.len() {
            self.phase = Phase::Done;
        } else if self.live {
            self.phase = Phase::AwaitAction;
        } else {
            self.action = State::Simulated;
            self.action_note = String::from_str("dry run: allowlisted action was not executed");
            self.after_action();
        }
    }

    fn close_step(&mut self, duration_ms: u128)
        requires
            old(self).checkpoints@.len() < old(self).profile.steps@.len(),
        ensures
            final(self)@ == begin_step(
                DrillView {
                    checkpoints: old(self)@.checkpoints.push(recorded(old(self)@, duration_ms)),
                    ..old(self)@
                },
            ),
    {
        let profile: &'a Profile = self.profile;
        let step = &profile.steps[self.checkpoints.len()];
        let verification_id = match &step.verify {
            Some(id) => Some(id.clone()),
            None => None,
        };
        let checkpoint = Checkpoint {
            name: step.name.clone(),
            action_id: step.action.clone(),
            action: self.action,
            verification_id,
            verification: self.verification,
            duration_ms,
            note: self.note.clone(),
        };
        let ghost before = self.checkpoints@;
        self.checkpoints.push(checkpoint);
        assert(checkpoint_views(self.checkpoints@) =~= checkpoint_views(before).push(checkpoint@));
        self.begin_step();
    }
}

/// A drill in progress over one profile of a valid configuration.
pub struct DrillRun<'a> {
    progress: Progress<'a>,
}

impl<'a> View for DrillRun<'a> {
    type V = DrillView;

    closed spec fn view(&self) -> DrillView {
        self.progress@
    }
}

impl<'a> DrillRun<'a> {
    #[verifier::type_invariant]
    spec fn well_formed(self) -> bool {
        run_wf(self.progress@)
    }

    /// What the caller is to do next. A dry run never asks for an action
    /// command: only the verification commands of its steps run.
    pub fn pending(&self) -> (a: DrillAction<'a>)
        ensures
            match self@.phase {
                Phase::AwaitAction | Phase::AwaitVerification => a matches DrillAction::Execute {
                    command_id,
                    command,
                } && command_id@ == pending_id(self@) && *command == pending_command(self@)
                    && has_entry(self@.config.allowlist@, command_id@, *command),
                Phase::AwaitClose => a is CloseStep,
                Phase::Done => a is Complete,
            },
            self@.phase is AwaitAction ==> pending_id(self@) == current_step(self@).action@,
            self@.phase is AwaitVerification ==> Some(pending_id(self@)) == opt_text(
                current_step(self@).verify,
            ),
            !self@.live ==> (a matches DrillAction::Execute { command_id, .. } ==> Some(
                command_id@,
            ) == opt_text(current_step(self@).verify)),
    {
        proof {
            use_type_invariant(self);
            lemma_run_steps_sound(self@);
        }
        let config: &'a Config = self.progress.config;
        let profile: &'a Profile = self.progress.profile;
        match self.progress.phase {
            Phase::AwaitAction => {
                let step: &'a Step = &profile.steps[self.progress.checkpoints.len()];
                assert(step_is_sound(config.allowlist@, *step));
                match config.allowlist.get(step.action.as_str()) {
                    Some(command) => DrillAction::Execute {
                        command_id: step.action.as_str(),
                        command,
                    },
                    // Unreachable: a valid configuration allowlists every step's action.
                    None => DrillAction::Complete,
                }
            },
            Phase::AwaitVerification => {
                let step: &'a Step = &profile.steps[self.progress.checkpoints.len()];
                assert(step_is_sound(config.allowlist@, *step));
                match &step.verify {
                    Some(id) => match config.allowlist.get(id.as_str()) {
                        Some(command) => DrillAction::Execute { command_id: id.as_str(), command },
                        // Unreachable: a valid configuration allowlists every verification.
                        None => DrillAction::Complete,
                    },
                    // Unreachable: the run awaits a verification only when the step declares one.
                    None => DrillAction::Complete,
                }
            },
            Phase::AwaitClose => DrillAction::CloseStep,
            Phase::Done => DrillAction::Complete,
        }
    }

    /// Takes in what the caller reports. A command result settles the action
    /// or the verification of the current step; a duration closes the step
    /// into a checkpoint and moves to the next. An event that the run does not
    /// await changes nothing.
    pub fn advance(self, event: DrillEvent) -> (next: DrillRun<'a>)
        ensures
            next@ == next_view(self@, event),
            run_wf(next@),
    {
        proof {
            use_type_invariant(&self);
            lemma_next_keeps_wf(self@, event);
        }
        let pending = self.pending();
        let DrillRun { progress } = self;
        let mut progress = progress;
        match event {
            DrillEvent::Outcome(outcome) => {
                let (ok, note) = match pending {
                    DrillAction::Execute { command_id, command } => command_result(
                        command_id,
                        command,
                        &outcome,
                    ),
                    _ => {
                        return DrillRun { progress };
                    },
                };
                match progress.phase {
                    Phase::AwaitAction => {
                        progress.action = if ok {
                            State::Passed
                        } else {
                            State::Failed
                        };
                        progress.action_note = note;
                        progress.after_action();
                    },
                    Phase::AwaitVerification => {
                        progress.verification = if ok {
                            State::Passed
                        } else {
                            State::Failed
                        };
                        progress.note = join3(progress.action_note.as_str(), "; ", note.as_str());
                        progress.phase = Phase::AwaitClose;
                    },
                    _ => {},
                }
            },
            DrillEvent::Closed { duration_ms } => {
                if progress.phase == Phase::AwaitClose {
                    progress.close_step(duration_ms);
                }
            },
        }
        DrillRun { progress }
    }

    /// The incident card of a finished run: the profile, the mode, one
    /// checkpoint per step, and whether every one of them confirmed. The completion time is read from
    /// the clock.
    pub fn finish(self) -> (card: IncidentCard)
        requires
            self@.phase is Done,
        ensures
            card@ == card_of(self@, card.completed_at_unix),
            card.all_confirmed == all_confirmed(self@.checkpoints, self@.live),
            card@.checkpoints.len() == self@.profile.steps@.len(),
            forall|i: int|
                0 <= i < card@.checkpoints.len() ==> checkpoint_follows(
                    #[trigger] card@.checkpoints[i],
                    self@.profile.steps@[i],
                    self@.live,
                    self@.verify,
                ),
    {
        proof {
            use_type_invariant(&self);
        }
        let ghost v = self@;
        let DrillRun { progress } = self;
        let live = progress.live;
        let n = progress.checkpoints.len();
        let mut all: bool = true;
        let mut i: usize = 0;
        while i < n
            invariant
                n == progress.checkpoints@.len(),
                live == v.live,
                checkpoint_views(progress.checkpoints@) == v.checkpoints,
                i <= n,
                all == (forall|j: int| 0 <= j < i ==> confirmed(#[trigger] v.checkpoints[j], live)),
            decreases n - i,
        {
            let c = &progress.checkpoints[i];
            assert(v.checkpoints[i as int] == c@);
            let ok = (c.verification == State::Passed || c.verification_id.is_none()) && if live {
                c.action == State::Passed
            } else {
                c.action == State::Simulated
            };
            if !ok {
                all = false;
            }
            i = i + 1;
        }
        let completed = now();
        IncidentCard {
            schema: "agent-kill-switch-drill/incident-card@v1",
            profile: progress.profile_id,
            description: progress.profile.description.clone(),
            mode: if live {
                "live"
            } else {
                "dry_run"
            },
            started_at_unix: progress.started_at_unix,
            completed_at_unix: completed,
            all_confirmed: all,
            checkpoints: progress.checkpoints,
            report_safety: "Command IDs and statuses only. Command lines, output, environment, and provider secrets are never included.",
        }
    }
}

/// Starts a drill of profile `profile_id`: the configuration must pass
/// `validate` and hold the profile. The start time is read from the clock.
/// Live runs execute each step's action; dry runs simulate it. Verification
/// commands run unless `verify` is false.
pub fn run_drill<'a>(config: &'a Config, profile_id: &str, live: bool, verify: bool) -> (r: Result<
    DrillRun<'a>,
    DrillError,
>)
    ensures
        r is Ok <==> (config_error(*config) is None && contains_key(
            config.profiles@,
            profile_id@,
        )),
        match r {
            Ok(run) => has_entry(config.profiles@, profile_id@, run@.profile) && run@
                == start_view(
                *config,
                profile_id@,
                run@.profile,
                live,
                verify,
                run@.started_at_unix,
            ) && run_wf(run@),
            Err(e) => e matches DrillError::Config(m) && if config_error(*config) is Some {
                config_error(*config) == Some(m@)
            } else {
                m@ == "profile `"@ + profile_id@ + "` was not found"@
            },
        },
{
    match validate(config) {
        Err(e) => {
            return Err(e);
        },
        Ok(_) => {},
    }
    let profile: &'a Profile = match config.profiles.get(profile_id) {
        Some(p) => p,
        None => {
            return Err(DrillError::Config(join3("profile `", profile_id, "` was not found")));
        },
    };
    proof {
        let j = choose|j: int|
            0 <= j < config.profiles@.len() && #[trigger] config.profiles@[j] == (
                profile_id@,
                *profile,
            );
        assert(config.profiles@[j].0 == profile_id@);
    }
    let started = now();
    let mut progress = Progress {
        config,
        profile_id: String::from_str(profile_id),
        profile,
        live,
        verify,
        started_at_unix: started,
        checkpoints: Vec::new(),
        phase: Phase::Done,
        action: State::Simulated,
        action_note: String::new(),
        verification: State::Skipped,
        note: String::new(),
    };
    assert(checkpoint_views(progress.checkpoints@) =~= Seq::<CheckpointView>::empty());
    let ghost v0 = progress@;
    proof {
        lemma_begin_step_wf(v0);
    }
    progress.begin_step();
    Ok(DrillRun { progress })
}

} // verus!
