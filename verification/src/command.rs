//! What running one allowlisted command amounts to: a pass or a failure and a
//! safe note. The process itself is started, watched and read by the caller,
//! which reports here how it ended.

use crate::config::AllowedCommand;
use crate::text::{
    contains, contains_text, decimal, decimal_text, join3, join4, lossy_utf8, opt_text,
    utf8_lossy,
};
use vstd::prelude::*;

verus! {

/// The most standard-output bytes kept from one command.
pub const MAX_CAPTURED_STDOUT_BYTES: usize = 1048576;

/// How a command run ended, as the process runner observed it.
#[derive(Debug)]
pub enum CommandOutcome {
    /// The program could not be started; the text is the system's error.
    SpawnFailed(String),
    /// The command's standard output could not be attached.
    NoStdout,
    /// The command was still running at its timeout and was stopped.
    TimedOut,
    /// Waiting for the command failed; the text is the system's error.
    WaitFailed(String),
    /// Reading the standard output failed; the text is the system's error.
    ReadFailed(String),
    /// The reader of the standard output ended abnormally.
    ReaderLost,
    /// The command exited; `stdout` is what it wrote, capped.
    Exited { success: bool, stdout: Vec<u8> },
}

/// Whether the output of an exited command holds the expected response
/// (always, when none is expected).
pub open spec fn response_expected(c: AllowedCommand, stdout: Seq<u8>) -> bool {
    expected_in(opt_text(c.expect_stdout), stdout)
}

/// The text of a command's output: its UTF-8 decoding when the bytes are
/// valid UTF-8, and otherwise what lossy decoding makes of them.
pub open spec fn decoded_output(stdout: Seq<u8>) -> Seq<char> {
    if vstd::utf8::valid_utf8(stdout) {
        vstd::utf8::decode_utf8(stdout)
    } else {
        lossy_utf8(stdout)
    }
}

/// Whether the output holds the expected response `expect` (always, when
/// none is expected).
pub open spec fn expected_in(expect: Option<Seq<char>>, stdout: Seq<u8>) -> bool {
    match expect {
        Some(wanted) => contains_text(decoded_output(stdout), wanted),
        None => true,
    }
}

/// Whether the command confirmed, and the note that records it.
pub open spec fn outcome_result(id: Seq<char>, c: AllowedCommand, o: CommandOutcome) -> (
    bool,
    Seq<char>,
) {
    match o {
        CommandOutcome::SpawnFailed(e) => (
            false,
            "could not execute declared command `"@ + id + "`: "@ + e@,
        ),
        CommandOutcome::NoStdout => (
            false,
            "could not read declared command `"@ + id + "` response"@,
        ),
        CommandOutcome::TimedOut => (
            false,
            "declared command `"@ + id + "` timed out after "@ + decimal_text(
                c.timeout_seconds as nat,
            ) + " seconds"@,
        ),
        CommandOutcome::WaitFailed(e) => (
            false,
            "could not wait for declared command `"@ + id + "`: "@ + e@,
        ),
        CommandOutcome::ReadFailed(e) => (
            false,
            "could not read declared command `"@ + id + "` response: "@ + e@,
        ),
        CommandOutcome::ReaderLost => (
            false,
            "could not read declared command `"@ + id + "` response"@,
        ),
        CommandOutcome::Exited { success, stdout } => {
            let expected = response_expected(c, stdout@);
            (
                success && expected,
                if success && !expected {
                    "command completed but expected response was absent"@
                } else if success {
                    "control-plane response matched"@
                } else {
                    "command exited unsuccessfully"@
                },
            )
        },
    }
}

/// Whether the command `id` confirmed, and its note, given how its run ended.
/// A timeout, a failure to start, wait or read, an unsuccessful exit or a
/// missing expected response all count as failures. The note names the
/// command by its ID only: it never holds the argv or the command's output.
pub fn command_result(id: &str, command: &AllowedCommand, outcome: &CommandOutcome) -> (r: (
    bool,
    String,
))
    ensures
        (r.0, r.1@) == outcome_result(id@, *command, *outcome),
{
    match outcome {
        CommandOutcome::SpawnFailed(e) => (
            false,
            join4("could not execute declared command `", id, "`: ", e.as_str()),
        ),
        CommandOutcome::NoStdout => (
            false,
            join3("could not read declared command `", id, "` response"),
        ),
        CommandOutcome::TimedOut => {
            let seconds = decimal(command.timeout_seconds);
            (false, join4("declared command `", id, "` timed out after ", seconds.as_str()).concat(
                " seconds",
            ))
        },
        CommandOutcome::WaitFailed(e) => (
            false,
            join4("could not wait for declared command `", id, "`: ", e.as_str()),
        ),
        CommandOutcome::ReadFailed(e) => (
            false,
            join4("could not read declared command `", id, "` response: ", e.as_str()),
        ),
        CommandOutcome::ReaderLost => (
            false,
            join3("could not read declared command `", id, "` response"),
        ),
        CommandOutcome::Exited { success, stdout } => {
            let expected = match &command.expect_stdout {
                Some(wanted) => {
                    let text = utf8_lossy(stdout.as_slice());
                    assert(text@ == decoded_output(stdout@));
                    contains(text.as_str(), wanted.as_str())
                },
                None => true,
            };
            let note = if *success && !expected {
                "command completed but expected response was absent"
            } else if *success {
                "control-plane response matched"
            } else {
                "command exited unsuccessfully"
            };
            (*success && expected, String::from_str(note))
        },
    }
}

/// How many of `incoming` bytes still fit after `held` bytes under the cap.
pub open spec fn capped_count(held: nat, incoming: nat) -> nat {
    let room: nat = if held >= MAX_CAPTURED_STDOUT_BYTES {
        0
    } else {
        (MAX_CAPTURED_STDOUT_BYTES - held) as nat
    };
    if incoming <= room {
        incoming
    } else {
        room
    }
}

/// Appends to `captured` the part of `chunk` that fits under
/// `MAX_CAPTURED_STDOUT_BYTES`; the rest is dropped.
pub fn append_capped(captured: &mut Vec<u8>, chunk: &[u8])
    ensures
        final(captured)@ == old(captured)@ + chunk@.take(
            capped_count(old(captured)@.len(), chunk@.len()) as int,
        ),
        old(captured)@.len() <= MAX_CAPTURED_STDOUT_BYTES ==> final(captured)@.len()
            <= MAX_CAPTURED_STDOUT_BYTES,
{
    let held = captured.len();
    let room: usize = if held >= MAX_CAPTURED_STDOUT_BYTES {
        0
    } else {
        MAX_CAPTURED_STDOUT_BYTES - held
    };
    let count: usize = if chunk.len() <= room {
        chunk.len()
    } else {
        room
    };
    let ghost start = captured@;
    let mut j: usize = 0;
    while j < count
        invariant
            count <= chunk@.len(),
            count == capped_count(start.len(), chunk@.len()),
            j <= count,
            captured@ == start + chunk@.take(j as int),
        decreases count - j,
    {
        captured.push(chunk[j]);
        assert(chunk@.take(j + 1) =~= chunk@.take(j as int).push(chunk@[j as int]));
        j = j + 1;
    }
}

/// Two commands that agree on everything a result reads: the expected
/// response and the timeout (their argv may differ).
pub open spec fn commands_agree(c1: AllowedCommand, c2: AllowedCommand) -> bool {
    &&& opt_text(c1.expect_stdout) == opt_text(c2.expect_stdout)
    &&& c1.timeout_seconds == c2.timeout_seconds
}

/// Two outcomes that agree on what a result reads: the same failure, or two
/// exits with the same status whose outputs both hold, or both lack, the
/// expected response `expect` (the outputs may otherwise differ).
pub open spec fn outcomes_agree(
    expect: Option<Seq<char>>,
    o1: CommandOutcome,
    o2: CommandOutcome,
) -> bool {
    match (o1, o2) {
        (
            CommandOutcome::Exited { success: s1, stdout: out1 },
            CommandOutcome::Exited { success: s2, stdout: out2 },
        ) => s1 == s2 && expected_in(expect, out1@) == expected_in(expect, out2@),
        _ => o1 == o2,
    }
}

/// Neither the argv of a command nor its output shows in its result: two
/// commands that differ only in their argv, run with outcomes that differ
/// only in output text, give the same result and the same note.
pub proof fn lemma_result_ignores_argv_and_output(
    id: Seq<char>,
    c1: AllowedCommand,
    c2: AllowedCommand,
    o1: CommandOutcome,
    o2: CommandOutcome,
)
    requires
        commands_agree(c1, c2),
        outcomes_agree(opt_text(c1.expect_stdout), o1, o2),
    ensures
        outcome_result(id, c1, o1) == outcome_result(id, c2, o2),
{
}

/// How an exit is judged, over every output: a successful exit confirms
/// exactly when its decoded output `text` (the UTF-8 text, or the lossy
/// decoding of bytes that are not UTF-8) holds the expected response anywhere, as
/// `str::contains` finds it, or when nothing is expected; an unsuccessful exit
/// never confirms.
pub proof fn lemma_exit_judged_on_expected_text(
    id: Seq<char>,
    c: AllowedCommand,
    out: Vec<u8>,
    text: Seq<char>,
)
    requires
        text == if vstd::utf8::valid_utf8(out@) {
            vstd::utf8::decode_utf8(out@)
        } else {
            lossy_utf8(out@)
        },
    ensures
        ({
            let found = match c.expect_stdout {
                Some(w) => exists|i: int|
                    0 <= i && i + w@.len() <= text.len() && #[trigger] text.subrange(
                        i,
                        i + w@.len(),
                    ) == w@,
                None => true,
            };
            &&& outcome_result(id, c, CommandOutcome::Exited { success: true, stdout: out })
                == if found {
                (true, "control-plane response matched"@)
            } else {
                (false, "command completed but expected response was absent"@)
            }
            &&& outcome_result(id, c, CommandOutcome::Exited { success: false, stdout: out })
                == (false, "command exited unsuccessfully"@)
        }),
{
    assert(decoded_output(out@) == text);
    match c.expect_stdout {
        Some(w) => {
            assert(opt_text(c.expect_stdout) == Some(w@));
            assert(response_expected(c, out@) == contains_text(text, w@));
        },
        None => {},
    }
}

/// A command confirms only when it exited successfully with the expected
/// response; every other way a run can end is a failure.
pub proof fn lemma_only_clean_exit_confirms(id: Seq<char>, c: AllowedCommand, o: CommandOutcome)
    requires
        outcome_result(id, c, o).0,
    ensures
        o matches CommandOutcome::Exited { success, stdout } && success && response_expected(
            c,
            stdout@,
        ),
{
}

/// What the process runner observed while waiting for a command.
#[derive(Debug, Clone, Copy, PartialEq, Eq, Structural)]
pub enum WaitStatus {
    /// The command exited; `true` when its status was success.
    Exited(bool),
    /// The command is still running.
    Running,
    /// Asking after the command failed.
    Failed,
}

/// What the process runner is to do next.
#[derive(Debug, Clone, Copy, PartialEq, Eq, Structural)]
pub enum WaitStep {
    /// Collect the output of the exited command; `true` when it succeeded.
    Collect(bool),
    /// Stop the command: it ran past its timeout.
    StopTimedOut,
    /// Stop the command: it can no longer be waited for.
    StopWaitFailed,
    /// Look again after this many milliseconds.
    PollAfterMs(u64),
}

/// How often a running command is looked at, in milliseconds.
pub const POLL_INTERVAL_MS: u64 = 10;

/// The decision of the wait loop: collect an exited command, stop one that
/// failed or ran for `timeout_seconds` or more, and otherwise look again
/// after the poll interval.
pub fn wait_step(timeout_seconds: u64, elapsed_ms: u128, status: WaitStatus) -> (s: WaitStep)
    ensures
        s == match status {
            WaitStatus::Exited(ok) => WaitStep::Collect(ok),
            WaitStatus::Failed => WaitStep::StopWaitFailed,
            WaitStatus::Running => if elapsed_ms >= timeout_seconds as u128 * 1000 {
                WaitStep::StopTimedOut
            } else {
                WaitStep::PollAfterMs(POLL_INTERVAL_MS)
            },
        },
{
    match status {
        WaitStatus::Exited(ok) => WaitStep::Collect(ok),
        WaitStatus::Failed => WaitStep::StopWaitFailed,
        WaitStatus::Running => {
            let limit: u128 = timeout_seconds as u128 * 1000;
            if elapsed_ms >= limit {
                WaitStep::StopTimedOut
            } else {
                WaitStep::PollAfterMs(POLL_INTERVAL_MS)
            }
        },
    }
}

} // verus!
