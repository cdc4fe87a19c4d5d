//! The drill configuration and the checks that `validate` applies to it.

use crate::table::{contains_key, Table};
use crate::text::{decimal, decimal_text, is_blank, is_blank_text, join3};
use vstd::prelude::*;

verus! {

/// The timeout of an allowlisted command that names none.
pub const DEFAULT_TIMEOUT_SECONDS: u64 = 30;

/// The longest timeout a configuration may give a command.
pub const MAX_TIMEOUT_SECONDS: u64 = 30;

/// The error type of the TOML reader; configurations are read outside this crate.
#[verifier::external_type_specification]
#[verifier::external_body]
pub struct ExTomlError(toml::de::Error);

/// Why a configuration cannot be used.
#[derive(Debug)]
pub enum DrillError {
    /// The configuration text is not valid TOML for a configuration.
    Parse(toml::de::Error),
    /// The configuration is well-formed but unsafe or inconsistent.
    Config(String),
}

/// A drill configuration: the allowlisted commands and the profiles that use them.
#[derive(Debug)]
pub struct Config {
    pub version: u32,
    pub allowlist: Table<AllowedCommand>,
    pub profiles: Table<Profile>,
}

/// A command that profiles may reference by its ID.
#[derive(Debug, Clone)]
pub struct AllowedCommand {
    /// The argv array; the first element is the program.
    pub command: Vec<String>,
    /// Text that the command's standard output must contain to count as confirmed.
    pub expect_stdout: Option<String>,
    pub timeout_seconds: u64,
}

/// A named stop path: an ordered list of steps.
#[derive(Debug, Clone)]
pub struct Profile {
    pub description: String,
    pub steps: Vec<Step>,
}

/// One step of a profile: an action and, optionally, a verification.
#[derive(Debug, Clone)]
pub struct Step {
    pub name: String,
    pub action: String,
    pub verify: Option<String>,
}

/// The timeout that a command gets when its configuration names none.
pub fn default_timeout_seconds() -> (t: u64)
    ensures
        t == DEFAULT_TIMEOUT_SECONDS,
{
    DEFAULT_TIMEOUT_SECONDS
}

/// The problem with one allowlist entry, if any.
pub open spec fn command_error(id: Seq<char>, c: AllowedCommand) -> Option<Seq<char>> {
    if is_blank_text(id) || c.command@.len() == 0 || is_blank_text(c.command@[0]@) {
        Some("allowlist entry `"@ + id + "` needs a non-empty command array"@)
    } else if !(1 <= c.timeout_seconds <= MAX_TIMEOUT_SECONDS) {
        Some(
            "allowlist entry `"@ + id + "` needs timeout_seconds from 1 to "@ + decimal_text(
                MAX_TIMEOUT_SECONDS as nat,
            ),
        )
    } else {
        None
    }
}

/// The problem with the first faulty allowlist entry from index `i` on, if any.
pub open spec fn first_command_error(s: Seq<(Seq<char>, AllowedCommand)>, i: int) -> Option<
    Seq<char>,
>
    decreases s.len() - i,
{
    if i < 0 || i >= s.len() {
        None
    } else if command_error(s[i].0, s[i].1) is Some {
        command_error(s[i].0, s[i].1)
    } else {
        first_command_error(s, i + 1)
    }
}

/// The problem with one step of profile `profile_id`, if any.
pub open spec fn step_error(
    allowlist: Seq<(Seq<char>, AllowedCommand)>,
    profile_id: Seq<char>,
    step: Step,
) -> Option<Seq<char>> {
    if is_blank_text(step.name@) {
        Some("profile `"@ + profile_id + "` has an unnamed step"@)
    } else if !contains_key(allowlist, step.action@) {
        Some("step `"@ + step.name@ + "` references unknown action `"@ + step.action@ + "`"@)
    } else {
        match step.verify {
            Some(v) => if !contains_key(allowlist, v@) {
                Some(
                    "step `"@ + step.name@ + "` references unknown verification `"@ + v@ + "`"@,
                )
            } else {
                None
            },
            None => None,
        }
    }
}

/// The problem with the first faulty step from index `i` on, if any.
pub open spec fn first_step_error(
    allowlist: Seq<(Seq<char>, AllowedCommand)>,
    profile_id: Seq<char>,
    steps: Seq<Step>,
    i: int,
) -> Option<Seq<char>>
    decreases steps.len() - i,
{
    if i < 0 || i >= steps.len() {
        None
    } else if step_error(allowlist, profile_id, steps[i]) is Some {
        step_error(allowlist, profile_id, steps[i])
    } else {
        first_step_error(allowlist, profile_id, steps, i + 1)
    }
}

/// The problem with one profile, if any.
pub open spec fn profile_error(
    allowlist: Seq<(Seq<char>, AllowedCommand)>,
    id: Seq<char>,
    p: Profile,
) -> Option<Seq<char>> {
    if p.steps@.len() == 0 {
        Some("profile `"@ + id + "` needs at least one step"@)
    } else {
        first_step_error(allowlist, id, p.steps@, 0)
    }
}

/// The problem with the first faulty profile from index `i` on, if any.
pub open spec fn first_profile_error(
    allowlist: Seq<(Seq<char>, AllowedCommand)>,
    profiles: Seq<(Seq<char>, Profile)>,
    i: int,
) -> Option<Seq<char>>
    decreases profiles.len() - i,
{
    if i < 0 || i >= profiles.len() {
        None
    } else if profile_error(allowlist, profiles[i].0, profiles[i].1) is Some {
        profile_error(allowlist, profiles[i].0, profiles[i].1)
    } else {
        first_profile_error(allowlist, profiles, i + 1)
    }
}

/// The message that `validate` reports for `c`, or `None` when `c` is valid:
/// the checks run in order, the allowlist entries and then the profiles in key
/// order, and the first failing check decides.
pub open spec fn config_error(c: Config) -> Option<Seq<char>> {
    if c.version != 1 {
        Some("only version = 1 is supported"@)
    } else if c.allowlist@.len() == 0 {
        Some("allowlist must not be empty"@)
    } else if c.profiles@.len() == 0 {
        Some("profiles must not be empty"@)
    } else if first_command_error(c.allowlist@, 0) is Some {
        first_command_error(c.allowlist@, 0)
    } else {
        first_profile_error(c.allowlist@, c.profiles@, 0)
    }
}

/// `r` carries the message `e`: both absent, or both present and equal.
pub open spec fn reports(r: Option<String>, e: Option<Seq<char>>) -> bool {
    match r {
        Some(m) => e == Some(m@),
        None => e is None,
    }
}

/// Checks one allowlist entry.
fn check_command(id: &String, command: &AllowedCommand) -> (r: Option<String>)
    ensures
        reports(r, command_error(id@, *command)),
{
    if is_blank(id.as_str()) || command.command.len() == 0 || is_blank(
        command.command[0].as_str(),
    ) {
        return Some(join3("allowlist entry `", id.as_str(), "` needs a non-empty command array"));
    }
    if !(1 <= command.timeout_seconds && command.timeout_seconds <= MAX_TIMEOUT_SECONDS) {
        let limit = decimal(MAX_TIMEOUT_SECONDS);
        return Some(
            join3("allowlist entry `", id.as_str(), "` needs timeout_seconds from 1 to ").concat(
                limit.as_str(),
            ),
        );
    }
    None
}

/// Checks one step of profile `profile_id`.
fn check_step(config: &Config, profile_id: &String, step: &Step) -> (r: Option<String>)
    ensures
        reports(r, step_error(config.allowlist@, profile_id@, *step)),
{
    if is_blank(step.name.as_str()) {
        return Some(join3("profile `", profile_id.as_str(), "` has an unnamed step"));
    }
    if !config.allowlist.contains_key(step.action.as_str()) {
        let m = join3("step `", step.name.as_str(), "` references unknown action `");
        return Some(m.concat(step.action.as_str()).concat("`"));
    }
    match &step.verify {
        Some(verify) => {
            if !config.allowlist.contains_key(verify.as_str()) {
                let m = join3("step `", step.name.as_str(), "` references unknown verification `");
                return Some(m.concat(verify.as_str()).concat("`"));
            }
            None
        },
        None => None,
    }
}

/// Checks one profile.
fn check_profile(config: &Config, id: &String, profile: &Profile) -> (r: Option<String>)
    ensures
        reports(r, profile_error(config.allowlist@, id@, *profile)),
{
    let n = profile.steps.len();
    if n == 0 {
        return Some(join3("profile `", id.as_str(), "` needs at least one step"));
    }
    let mut i: usize = 0;
    while i < n
        invariant
            n == profile.steps@.len(),
            n > 0,
            i <= n,
            profile_error(config.allowlist@, id@, *profile) == first_step_error(
                config.allowlist@,
                id@,
                profile.steps@,
                i as int,
            ),
        decreases n - i,
    {
        let r = check_step(config, id, &profile.steps[i]);
        if r.is_some() {
            return r;
        }
        i = i + 1;
    }
    None
}

/// Checks that `config` is safe to drill with: supported version, non-empty
/// allowlist and profiles, every allowlisted command non-empty with a timeout
/// from 1 to 30 seconds, every profile with named steps whose action and
/// verification IDs are allowlisted. The first failing check is reported.
pub fn validate(config: &Config) -> (r: Result<(), DrillError>)
    ensures
        match r {
            Ok(_) => config_error(*config) is None,
            Err(e) => e matches DrillError::Config(m) && config_error(*config) == Some(m@),
        },
{
    if config.version != 1 {
        return Err(DrillError::Config(String::from_str("only version = 1 is supported")));
    }
    if config.allowlist.is_empty() {
        return Err(DrillError::Config(String::from_str("allowlist must not be empty")));
    }
    if config.profiles.is_empty() {
        return Err(DrillError::Config(String::from_str("profiles must not be empty")));
    }
    let n = config.allowlist.len();
    let mut i: usize = 0;
    while i < n
        invariant
            n == config.allowlist@.len(),
            config.version == 1,
            config.allowlist@.len() > 0,
            config.profiles@.len() > 0,
            i <= n,
            first_command_error(config.allowlist@, 0) == first_command_error(
                config.allowlist@,
                i as int,
            ),
        decreases n - i,
    {
        let (id, command) = config.allowlist.entry(i);
        if let Some(m) = check_command(id, command) {
            assert(first_command_error(config.allowlist@, i as int) == Some(m@));
            return Err(DrillError::Config(m));
        }
        i = i + 1;
    }
    let n = config.profiles.len();
    let mut i: usize = 0;
    while i < n
        invariant
            n == config.profiles@.len(),
            config.version == 1,
            config.allowlist@.len() > 0,
            config.profiles@.len() > 0,
            i <= n,
            first_command_error(config.allowlist@, 0) is None,
            first_profile_error(config.allowlist@, config.profiles@, 0) == first_profile_error(
                config.allowlist@,
                config.profiles@,
                i as int,
            ),
        decreases n - i,
    {
        let (id, profile) = config.profiles.entry(i);
        if let Some(m) = check_profile(config, id, profile) {
            assert(first_profile_error(config.allowlist@, config.profiles@, i as int) == Some(m@));
            return Err(DrillError::Config(m));
        }
        i = i + 1;
    }
    Ok(())
}


proof fn lemma_no_command_error(s: Seq<(Seq<char>, AllowedCommand)>, i: int, j: int)
    requires
        0 <= i <= j < s.len(),
        first_command_error(s, i) is None,
    ensures
        command_error(s[j].0, s[j].1) is None,
    decreases j - i,
{
    if i < j {
        lemma_no_command_error(s, i + 1, j);
    }
}

proof fn lemma_no_step_error(
    allowlist: Seq<(Seq<char>, AllowedCommand)>,
    profile_id: Seq<char>,
    steps: Seq<Step>,
    i: int,
    j: int,
)
    requires
        0 <= i <= j < steps.len(),
        first_step_error(allowlist, profile_id, steps, i) is None,
    ensures
        step_error(allowlist, profile_id, steps[j]) is None,
    decreases j - i,
{
    if i < j {
        lemma_no_step_error(allowlist, profile_id, steps, i + 1, j);
    }
}

proof fn lemma_no_profile_error(
    allowlist: Seq<(Seq<char>, AllowedCommand)>,
    profiles: Seq<(Seq<char>, Profile)>,
    i: int,
    j: int,
)
    requires
        0 <= i <= j < profiles.len(),
        first_profile_error(allowlist, profiles, i) is None,
    ensures
        profile_error(allowlist, profiles[j].0, profiles[j].1) is None,
    decreases j - i,
{
    if i < j {
        lemma_no_profile_error(allowlist, profiles, i + 1, j);
    }
}

/// A step that a valid configuration accepts: it is named, and the commands
/// it references are allowlisted.
pub open spec fn step_is_sound(allowlist: Seq<(Seq<char>, AllowedCommand)>, step: Step) -> bool {
    &&& !is_blank_text(step.name@)
    &&& contains_key(allowlist, step.action@)
    &&& step.verify matches Some(v) ==> contains_key(allowlist, v@)
}

/// An allowlisted command that a valid configuration accepts: it has a program
/// and a timeout from 1 to 30 seconds.
pub open spec fn command_is_sound(id: Seq<char>, c: AllowedCommand) -> bool {
    &&& !is_blank_text(id)
    &&& c.command@.len() > 0
    &&& !is_blank_text(c.command@[0]@)
    &&& 1 <= c.timeout_seconds <= MAX_TIMEOUT_SECONDS
}

/// What a configuration that `validate` accepts guarantees: version 1, a
/// non-empty allowlist of sound commands, and non-empty profiles whose steps
/// only call allowlisted IDs.
pub proof fn lemma_valid_config(c: Config)
    requires
        config_error(c) is None,
    ensures
        c.version == 1,
        c.allowlist@.len() > 0,
        c.profiles@.len() > 0,
        forall|i: int|
            0 <= i < c.allowlist@.len() ==> command_is_sound(
                #[trigger] c.allowlist@[i].0,
                c.allowlist@[i].1,
            ),
        forall|p: int|
            0 <= p < c.profiles@.len() ==> (#[trigger] c.profiles@[p]).1.steps@.len() > 0,
        forall|p: int, k: int|
            0 <= p < c.profiles@.len() && 0 <= k < c.profiles@[p].1.steps@.len()
                ==> step_is_sound(c.allowlist@, #[trigger] c.profiles@[p].1.steps@[k]),
{
    assert forall|i: int| 0 <= i < c.allowlist@.len() implies command_is_sound(
        #[trigger] c.allowlist@[i].0,
        c.allowlist@[i].1,
    ) by {
        lemma_no_command_error(c.allowlist@, 0, i);
    }
    assert forall|p: int| 0 <= p < c.profiles@.len() implies (
    #[trigger] c.profiles@[p]).1.steps@.len() > 0 by {
        lemma_no_profile_error(c.allowlist@, c.profiles@, 0, p);
    }
    assert forall|p: int, k: int|
        0 <= p < c.profiles@.len() && 0 <= k < c.profiles@[p].1.steps@.len() implies step_is_sound(
        c.allowlist@,
        #[trigger] c.profiles@[p].1.steps@[k],
    ) by {
        lemma_no_profile_error(c.allowlist@, c.profiles@, 0, p);
        lemma_no_step_error(c.allowlist@, c.profiles@[p].0, c.profiles@[p].1.steps@, 0, k);
    }
}

proof fn lemma_sound_commands(s: Seq<(Seq<char>, AllowedCommand)>, i: int)
    requires
        0 <= i,
        forall|j: int| 0 <= j < s.len() ==> command_is_sound(#[trigger] s[j].0, s[j].1),
    ensures
        first_command_error(s, i) is None,
    decreases s.len() - i,
{
    if i < s.len() {
        assert(command_is_sound(s[i].0, s[i].1));
        lemma_sound_commands(s, i + 1);
    }
}

proof fn lemma_sound_steps(
    allowlist: Seq<(Seq<char>, AllowedCommand)>,
    profile_id: Seq<char>,
    steps: Seq<Step>,
    i: int,
)
    requires
        0 <= i,
        forall|k: int| 0 <= k < steps.len() ==> step_is_sound(allowlist, #[trigger] steps[k]),
    ensures
        first_step_error(allowlist, profile_id, steps, i) is None,
    decreases steps.len() - i,
{
    if i < steps.len() {
        assert(step_is_sound(allowlist, steps[i]));
        lemma_sound_steps(allowlist, profile_id, steps, i + 1);
    }
}

proof fn lemma_sound_profiles(
    allowlist: Seq<(Seq<char>, AllowedCommand)>,
    profiles: Seq<(Seq<char>, Profile)>,
    i: int,
)
    requires
        0 <= i,
        forall|p: int| 0 <= p < profiles.len() ==> (#[trigger] profiles[p]).1.steps@.len() > 0,
        forall|p: int, k: int|
            0 <= p < profiles.len() && 0 <= k < profiles[p].1.steps@.len() ==> step_is_sound(
                allowlist,
                #[trigger] profiles[p].1.steps@[k],
            ),
    ensures
        first_profile_error(allowlist, profiles, i) is None,
    decreases profiles.len() - i,
{
    if i < profiles.len() {
        let steps = profiles[i].1.steps@;
        assert(steps.len() > 0);
        assert forall|k: int| 0 <= k < steps.len() implies step_is_sound(
            allowlist,
            #[trigger] steps[k],
        ) by {
            assert(step_is_sound(allowlist, profiles[i].1.steps@[k]));
        }
        lemma_sound_steps(allowlist, profiles[i].0, steps, 0);
        lemma_sound_profiles(allowlist, profiles, i + 1);
    }
}

/// Every configuration that meets the documented conditions is accepted:
/// version 1, a non-empty allowlist of commands that have a program and a
/// timeout from 1 to 30 seconds, and non-empty profiles each with a step at
/// least, whose steps are named and only call allowlisted IDs. Nothing else
/// (a description, say) is checked.
pub proof fn lemma_sound_config_is_valid(c: Config)
    requires
        c.version == 1,
        c.allowlist@.len() > 0,
        c.profiles@.len() > 0,
        forall|i: int|
            0 <= i < c.allowlist@.len() ==> command_is_sound(
                #[trigger] c.allowlist@[i].0,
                c.allowlist@[i].1,
            ),
        forall|p: int|
            0 <= p < c.profiles@.len() ==> (#[trigger] c.profiles@[p]).1.steps@.len() > 0,
        forall|p: int, k: int|
            0 <= p < c.profiles@.len() && 0 <= k < c.profiles@[p].1.steps@.len()
                ==> step_is_sound(c.allowlist@, #[trigger] c.profiles@[p].1.steps@[k]),
    ensures
        config_error(c) is None,
{
    lemma_sound_commands(c.allowlist@, 0);
    lemma_sound_profiles(c.allowlist@, c.profiles@, 0);
}

} // verus!
