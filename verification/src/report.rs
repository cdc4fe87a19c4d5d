//! The operator-facing side of a drill: the live-run lock, the text forms of
//! results, and the exit status.

use crate::config::Config;
use crate::drill::{CheckpointView, IncidentCard, State, checkpoint_views};
use crate::text::{decimal, decimal_text, join4};
use vstd::prelude::*;

verus! {

/// Appends `c` to `s`. Trusted: `String::push` appends the character to the
/// end of the string, as its documentation says.
#[verifier::external_body]
fn push_char(s: &mut String, c: char)
    ensures
        final(s)@ == old(s)@.push(c),
{
    s.push(c);
}

/// Whether a live run of `profile` is confirmed by `confirm`: it must name the
/// profile exactly. Dry runs need no confirmation.
pub open spec fn live_unlocked(live: bool, profile: Seq<char>, confirm: Option<Seq<char>>) -> bool {
    !live || confirm == Some(profile)
}

/// Only live runs are locked: a dry run is never refused, whatever `--confirm`
/// says, and a live run is let through exactly when `--confirm` names its
/// profile.
pub proof fn lemma_only_live_runs_are_locked(profile: Seq<char>, confirm: Option<Seq<char>>)
    ensures
        live_unlocked(false, profile, confirm),
        live_unlocked(true, profile, confirm) <==> (confirm matches Some(c) && c == profile),
{
}

/// Refuses a live run unless `--confirm` names its profile exactly; the
/// error tells the operator how to re-run.
pub fn check_live_confirmation(live: bool, profile: &str, confirm: Option<&str>) -> (r: Result<
    (),
    String,
>)
    ensures
        r is Ok <==> live_unlocked(
            live,
            profile@,
            match confirm {
                Some(c) => Some(c@),
                None => None,
            },
        ),
        r matches Err(m) ==> m@ == "live actions are locked. Re-run with --live --confirm "@
            + profile@,
        !live ==> r is Ok,
        live ==> (r is Ok <==> (confirm matches Some(c) && c@ == profile@)),
{
    let unlocked = match confirm {
        Some(c) => crate::table::same_text(c, profile),
        None => false,
    };
    if live && !unlocked {
        let mut m = String::from_str("live actions are locked. Re-run with --live --confirm ");
        m.append(profile);
        return Err(m);
    }
    Ok(())
}

/// The process exit status of a finished drill: 0 when every declared path
/// confirmed, 2 when an action or verification needs review.
pub fn drill_exit_code(card: &IncidentCard) -> (code: u8)
    ensures
        code == if card.all_confirmed {
            0u8
        } else {
            2u8
        },
{
    if card.all_confirmed {
        0
    } else {
        2
    }
}

/// The name that `State`'s `Debug` writes.
pub open spec fn state_name(s: State) -> Seq<char> {
    match s {
        State::Simulated => "Simulated"@,
        State::Passed => "Passed"@,
        State::Failed => "Failed"@,
        State::Skipped => "Skipped"@,
    }
}

fn state_str(s: State) -> (r: &'static str)
    ensures
        r@ == state_name(s),
{
    match s {
        State::Simulated => "Simulated",
        State::Passed => "Passed",
        State::Failed => "Failed",
        State::Skipped => "Skipped",
    }
}

/// `s` with every `_` turned into a space.
pub open spec fn spaced(s: Seq<char>) -> Seq<char> {
    s.map_values(|c: char| if c == '_' { ' ' } else { c })
}

fn spaced_string(s: &str) -> (r: String)
    ensures
        r@ == spaced(s@),
{
    let cs = crate::text::chars_of(s);
    let mut r = String::new();
    let mut i: usize = 0;
    while i < cs.len()
        invariant
            cs@ == s@,
            i <= cs@.len(),
            r@ == spaced(s@.take(i as int)),
        decreases cs.len() - i,
    {
        let c = cs[i];
        push_char(
            &mut r,
            if c == '_' {
                ' '
            } else {
                c
            },
        );
        assert(spaced(s@.take(i + 1)) =~= spaced(s@.take(i as int)).push(
            if c == '_' {
                ' '
            } else {
                c
            },
        ));
        i = i + 1;
    }
    assert(s@.take(s@.len() as int) =~= s@);
    r
}

/// The printed line of one checkpoint.
pub open spec fn checkpoint_line(c: CheckpointView) -> Seq<char> {
    c.name + " — action: "@ + state_name(c.action) + "; verification: "@ + state_name(
        c.verification,
    ) + " ("@ + c.note + ")\n"@
}

/// The printed lines of the checkpoints, in order.
pub open spec fn checkpoint_lines(cs: Seq<CheckpointView>) -> Seq<char>
    decreases cs.len(),
{
    if cs.len() == 0 {
        Seq::empty()
    } else {
        checkpoint_lines(cs.drop_last()) + checkpoint_line(cs.last())
    }
}

/// The checkpoint lines come in card order: no lines for no checkpoints, and a
/// checkpoint added at the end (or the front) adds its line at the end (or the
/// front).
pub proof fn lemma_checkpoint_lines_in_order(cs: Seq<CheckpointView>, c: CheckpointView)
    ensures
        checkpoint_lines(Seq::<CheckpointView>::empty()) == Seq::<char>::empty(),
        checkpoint_lines(cs.push(c)) == checkpoint_lines(cs) + checkpoint_line(c),
        checkpoint_lines(seq![c] + cs) == checkpoint_line(c) + checkpoint_lines(cs),
    decreases cs.len(),
{
    assert(cs.push(c).drop_last() =~= cs);
    if cs.len() == 0 {
        assert(seq![c] + cs =~= seq![c]);
        assert(seq![c].drop_last() =~= Seq::<CheckpointView>::empty());
        assert(checkpoint_lines(Seq::<CheckpointView>::empty()) == Seq::<char>::empty());
        assert(checkpoint_lines(cs) == Seq::<char>::empty());
        assert(checkpoint_lines(seq![c]) == checkpoint_lines(seq![c].drop_last()) + checkpoint_line(
            seq![c].last(),
        ));
        assert(Seq::<char>::empty() + checkpoint_line(c) =~= checkpoint_line(c));
        assert(checkpoint_line(c) + Seq::<char>::empty() =~= checkpoint_line(c));
    } else {
        let d = cs.drop_last();
        lemma_checkpoint_lines_in_order(d, c);
        assert((seq![c] + cs).drop_last() =~= seq![c] + d);
        assert((seq![c] + cs).last() == cs.last());
        assert(checkpoint_lines(seq![c] + cs) == checkpoint_lines(seq![c] + d) + checkpoint_line(
            cs.last(),
        ));
        assert(checkpoint_line(c) + checkpoint_lines(d) + checkpoint_line(cs.last())
            =~= checkpoint_line(c) + (checkpoint_lines(d) + checkpoint_line(cs.last())));
    }
}

/// The plain-text incident card that the command line prints.
pub open spec fn card_text(card: crate::drill::IncidentCardView) -> Seq<char> {
    "INCIDENT CARD · "@ + card.profile + " · "@ + spaced(card.mode) + "\n"@ + checkpoint_lines(
        card.checkpoints,
    ) + "RESULT: "@ + if card.all_confirmed {
        "ALL DECLARED PATHS CONFIRMED"@
    } else {
        "REVIEW REQUIRED"@
    } + "\n"@
}

/// Renders the incident card as plain text, one line per checkpoint.
pub fn render_card(card: &IncidentCard) -> (text: String)
    ensures
        text@ == card_text(card@),
{
    let mode = spaced_string(card.mode);
    let mut text = join4("INCIDENT CARD · ", card.profile.as_str(), " · ", mode.as_str());
    text.append("\n");
    let ghost head = text@;
    let n = card.checkpoints.len();
    let ghost cs = checkpoint_views(card.checkpoints@);
    let mut i: usize = 0;
    while i < n
        invariant
            n == card.checkpoints@.len(),
            cs == checkpoint_views(card.checkpoints@),
            i <= n,
            text@ == head + checkpoint_lines(cs.take(i as int)),
        decreases n - i,
    {
        let c = &card.checkpoints[i];
        assert(cs[i as int] == c@);
        let line = join4(c.name.as_str(), " — action: ", state_str(c.action), "; verification: ");
        let line = join4(line.as_str(), state_str(c.verification), " (", c.note.as_str());
        let line = line.concat(")\n");
        text.append(line.as_str());
        assert(cs.take(i + 1).drop_last() =~= cs.take(i as int));
        i = i + 1;
    }
    assert(cs.take(n as int) =~= cs);
    text.append("RESULT: ");
    text.append(
        if card.all_confirmed {
            "ALL DECLARED PATHS CONFIRMED"
        } else {
            "REVIEW REQUIRED"
        },
    );
    text.append("\n");
    text
}

/// The summary that `validate` prints for a valid configuration.
pub open spec fn validation_text(profiles: nat, commands: nat, json: bool) -> Seq<char> {
    if json {
        "{\"valid\":true,\"profiles\":"@ + decimal_text(profiles) + ",\"allowlist\":"@
            + decimal_text(commands) + "}\n"@
    } else {
        "Valid: "@ + decimal_text(profiles) + " profile(s), "@ + decimal_text(commands)
            + " allowlisted command(s).\n"@
    }
}

/// The summary of a valid configuration: how many profiles and allowlisted
/// commands it has, as JSON or as a sentence.
pub fn validation_summary(config: &Config, json: bool) -> (text: String)
    ensures
        text@ == validation_text(config.profiles@.len(), config.allowlist@.len(), json),
{
    let profiles = decimal(config.profiles.len() as u64);
    let commands = decimal(config.allowlist.len() as u64);
    if json {
        let t = join4("{\"valid\":true,\"profiles\":", profiles.as_str(), ",\"allowlist\":", commands.as_str());
        t.concat("}\n")
    } else {
        let t = join4("Valid: ", profiles.as_str(), " profile(s), ", commands.as_str());
        t.concat(" allowlisted command(s).\n")
    }
}

} // verus!
