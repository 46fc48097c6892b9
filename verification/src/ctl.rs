//! Decisions of the command-line client: scheduler name prefixes, which
//! scheduler a user's input names, and which mode a start or switch uses.

use vstd::prelude::*;

use crate::sched::{mode_code_spec, sched_of_name_spec, SchedMode, SupportedSched, sched_name_spec};
use crate::text::{starts_with, str_eq, strip_prefix};

verus! {

/// The prefix of every full scheduler name.
pub open spec fn sched_prefix() -> Seq<char> {
    "scx_"@
}

/// `input` with the `scx_` prefix added unless it already has it.
pub open spec fn ensure_prefix_spec(input: Seq<char>) -> Seq<char> {
    if sched_prefix().is_prefix_of(input) {
        input
    } else {
        sched_prefix() + input
    }
}

/// `input` with a leading `scx_` removed, if it has one.
pub open spec fn remove_prefix_spec(input: Seq<char>) -> Seq<char> {
    if sched_prefix().is_prefix_of(input) {
        input.skip(sched_prefix().len() as int)
    } else {
        input
    }
}

/// `input` with the `scx_` prefix added unless it already has it.
pub fn ensure_scx_prefix(input: String) -> (res: String)
    ensures
        res@ == ensure_prefix_spec(input@),
{
    if !starts_with(input.as_str(), "scx_") {
        let mut res = "scx_".to_owned();
        res.append(input.as_str());
        return res;
    }
    input
}

/// `input` with a leading `scx_` removed, if it has one.
pub fn remove_scx_prefix(input: &str) -> (res: String)
    ensures
        res@ == remove_prefix_spec(input@),
{
    if let Some(strip_input) = strip_prefix(input, "scx_") {
        return strip_input;
    }
    input.to_owned()
}

/// Adding the prefix twice adds it once; removing it after adding it is
/// the same as removing it; adding it after removing it gives back the
/// prefixed name, unless the name carried the prefix twice.
pub proof fn lemma_prefix_round_trips(input: Seq<char>)
    ensures
        ensure_prefix_spec(ensure_prefix_spec(input)) == ensure_prefix_spec(input),
        remove_prefix_spec(ensure_prefix_spec(input)) == remove_prefix_spec(input),
        !sched_prefix().is_prefix_of(remove_prefix_spec(input)) ==> ensure_prefix_spec(
            remove_prefix_spec(input),
        ) == ensure_prefix_spec(input),
{
    let p = sched_prefix();
    if !p.is_prefix_of(input) {
        let e = p + input;
        assert(e.take(p.len() as int) =~= p);
        assert(e.skip(p.len() as int) =~= input);
    } else {
        assert(p + input.skip(p.len() as int) =~= input);
    }
}

/// Whether `sched`, as typed by the user, is among the schedulers the
/// loader advertises, with or without its prefix.
pub open spec fn is_listed_spec(raw_supported: Seq<Seq<char>>, sched: Seq<char>) -> bool {
    raw_supported.contains(sched) || raw_supported.map_values(|s: Seq<char>| remove_prefix_spec(
        s,
    )).contains(sched)
}

/// Whether the advertised name at position `j` is `sched`, with or
/// without its prefix.
pub open spec fn names_entry(raw_supported: Seq<Seq<char>>, j: int, sched: Seq<char>) -> bool {
    raw_supported[j] == sched || remove_prefix_spec(raw_supported[j]) == sched
}

/// Why a typed scheduler name was not accepted.
#[derive(Debug, Clone, Copy, PartialEq, Eq, Structural)]
pub enum SchedChoiceError {
    /// The loader does not advertise a scheduler by that name.
    NotSupported,
    /// The loader advertises it, but it is not a scheduler this client knows.
    UnknownName,
}

/// Checks a scheduler name typed by the user against the list the loader
/// advertises (full names, compared with and without their prefix) and
/// returns the scheduler it names.
pub fn validate_sched(raw_supported_scheds: &Vec<String>, sched: String) -> (res: Result<
    SupportedSched,
    SchedChoiceError,
>)
    ensures
        !is_listed_spec(raw_supported_scheds.deep_view(), sched@) ==> res == Err::<
            SupportedSched,
            SchedChoiceError,
        >(SchedChoiceError::NotSupported),
        is_listed_spec(raw_supported_scheds.deep_view(), sched@) ==> res == match sched_of_name_spec(
            ensure_prefix_spec(sched@),
        ) {
            Some(s) => Ok(s),
            None => Err(SchedChoiceError::UnknownName),
        },
{
    let ghost raw = raw_supported_scheds.deep_view();
    let n = raw_supported_scheds.len();
    let mut listed = false;
    for i in 0..n
        invariant
            n == raw_supported_scheds.len(),
            raw == raw_supported_scheds.deep_view(),
            listed == exists|j: int| 0 <= j < i && #[trigger] names_entry(raw, j, sched@),
    {
        let full = raw_supported_scheds[i].as_str();
        let short = remove_scx_prefix(full);
        assert(raw[i as int] == full@);
        if str_eq(full, sched.as_str()) || str_eq(short.as_str(), sched.as_str()) {
            assert(names_entry(raw, i as int, sched@));
            listed = true;
        } else {
            assert(!names_entry(raw, i as int, sched@));
        }
    }
    proof {
        let stripped = raw.map_values(|s: Seq<char>| remove_prefix_spec(s));
        if listed {
            let j = choose|j: int| 0 <= j < n && #[trigger] names_entry(raw, j, sched@);
            if raw[j] == sched@ {
                assert(raw.contains(sched@));
            } else {
                assert(stripped[j] == sched@);
                assert(stripped.contains(sched@));
            }
        } else {
            if raw.contains(sched@) {
                let j = choose|j: int| 0 <= j < raw.len() && raw[j] == sched@;
                assert(names_entry(raw, j, sched@));
            }
            if stripped.contains(sched@) {
                let j = choose|j: int| 0 <= j < stripped.len() && stripped[j] == sched@;
                assert(names_entry(raw, j, sched@));
            }
        }
    }
    if !listed {
        return Err(SchedChoiceError::NotSupported);
    }
    let full_name = ensure_scx_prefix(sched);
    match SupportedSched::from_name(full_name.as_str()) {
        Some(s) => Ok(s),
        None => Err(SchedChoiceError::UnknownName),
    }
}

/// Whether the loader reports a scheduler as running; it answers
/// `"unknown"` when none is.
pub open spec fn is_running_spec(current: Seq<char>) -> bool {
    current != "unknown"@
}

/// Whether the loader's answer `current` names a running scheduler.
pub fn is_running(current: &str) -> (res: bool)
    ensures
        res == is_running_spec(current@),
{
    !str_eq(current, "unknown")
}

/// The scheduler the loader reports as running: `Ok(None)` when none runs,
/// `Err(())` when the reported name is not a scheduler this client knows.
pub fn parse_current_scheduler(current: &str) -> (res: Result<Option<SupportedSched>, ()>)
    ensures
        !is_running_spec(current@) ==> res == Ok::<Option<SupportedSched>, ()>(None),
        is_running_spec(current@) ==> res == match sched_of_name_spec(current@) {
            Some(s) => Ok(Some(s)),
            None => Err(()),
        },
{
    if !is_running(current) {
        return Ok(None);
    }
    match SupportedSched::from_name(current) {
        Some(s) => Ok(Some(s)),
        None => Err(()),
    }
}

/// Whether `mode` has configured flags for a scheduler, as the client
/// checks before a start or switch: `Auto` always has; when the query
/// failed (`None`) the check passes, so a failed query never blocks the
/// action; otherwise the mode must be among those the loader listed.
pub fn check_mode_configured(mode: SchedMode, configured_modes: Option<&Vec<SchedMode>>) -> (res: bool)
    ensures
        res == (mode == SchedMode::Auto || match configured_modes {
            None => true,
            Some(v) => v@.contains(mode),
        }),
{
    if mode == SchedMode::Auto {
        return true;
    }
    match configured_modes {
        None => true,
        Some(v) => modes_contain(v, mode),
    }
}

/// Whether `mode` occurs in `modes`.
pub fn modes_contain(modes: &Vec<SchedMode>, mode: SchedMode) -> (res: bool)
    ensures
        res == modes@.contains(mode),
{
    let n = modes.len();
    for i in 0..n
        invariant
            n == modes.len(),
            forall|j: int| 0 <= j < i ==> modes@[j] != mode,
    {
        if modes[i] == mode {
            assert(modes@[i as int] == mode);
            return true;
        }
    }
    false
}

/// Which mode a switch uses.
#[derive(Debug, Clone, Copy, PartialEq, Eq, Structural)]
pub enum ModeChoice {
    /// Use this mode.
    Use(SchedMode),
    /// Keep the mode the running scheduler has now.
    KeepCurrent,
}

/// The mode for switching to `target` while `current_name` runs: the mode
/// asked for if any; otherwise `Auto` when the switch changes scheduler,
/// and the current mode when it only changes the running scheduler's mode.
pub fn choose_switch_mode(explicit: Option<SchedMode>, target: &SupportedSched, current_name: &str) -> (res: ModeChoice)
    ensures
        res == match explicit {
            Some(m) => ModeChoice::Use(m),
            None => if sched_name_spec(*target) != current_name@ {
                ModeChoice::Use(SchedMode::Auto)
            } else {
                ModeChoice::KeepCurrent
            },
        },
{
    let switching_scheduler = !str_eq(target.name(), current_name);
    match explicit {
        Some(mode) => ModeChoice::Use(mode),
        None => if switching_scheduler {
            ModeChoice::Use(SchedMode::Auto)
        } else {
            ModeChoice::KeepCurrent
        },
    }
}

/// Whether the client must ask the loader which modes are configured
/// before starting or switching in `mode`: never for `Auto`, which always
/// has its flags.
pub fn mode_query_needed(mode: SchedMode) -> (res: bool)
    ensures
        res == (mode != SchedMode::Auto),
{
    mode != SchedMode::Auto
}

/// Whether every code in `codes` names a mode.
pub open spec fn all_codes_known(codes: Seq<u32>) -> bool {
    forall|i: int| 0 <= i < codes.len() ==> #[trigger] codes[i] <= 4
}

/// The modes that the loader's answer `codes` lists, or `None` when one
/// code names no mode, so that the answer as a whole cannot be read.
pub fn modes_from_codes(codes: &Vec<u32>) -> (res: Option<Vec<SchedMode>>)
    ensures
        res is None <==> !all_codes_known(codes@),
        res matches Some(v) ==> v@.len() == codes@.len() && forall|i: int|
            0 <= i < codes@.len() ==> mode_code_spec(#[trigger] v@[i]) == codes@[i],
{
    let mut modes: Vec<SchedMode> = Vec::new();
    let n = codes.len();
    for i in 0..n
        invariant
            n == codes.len(),
            modes@.len() == i,
            forall|j: int| 0 <= j < i ==> #[trigger] codes@[j] <= 4,
            forall|j: int| 0 <= j < i ==> mode_code_spec(#[trigger] modes@[j]) == codes@[j],
    {
        match SchedMode::from_code(codes[i]) {
            Some(m) => {
                proof {
                    assert(mode_code_spec(m) <= 4);
                }
                modes.push(m);
            },
            None => {
                assert(!(codes@[i as int] <= 4));
                return None;
            },
        }
    }
    Some(modes)
}

/// What the client is asked to do with a scheduler.
#[derive(Debug, Clone, Copy, PartialEq, Eq, Structural)]
pub enum LaunchKind {
    /// Start one when none runs.
    Start,
    /// Switch the running one, or its mode.
    Switch,
}

/// Whether the client refuses `kind` while the loader reports `current`:
/// a start when a scheduler already runs, a switch when none does.
pub open spec fn launch_refused_spec(kind: LaunchKind, current: Seq<char>) -> bool {
    match kind {
        LaunchKind::Start => is_running_spec(current),
        LaunchKind::Switch => !is_running_spec(current),
    }
}

/// Whether the client refuses `kind` while the loader reports `current`.
pub fn launch_refused(kind: LaunchKind, current: &str) -> (res: bool)
    ensures
        res == launch_refused_spec(kind, current@),
{
    match kind {
        LaunchKind::Start => is_running(current),
        LaunchKind::Switch => !is_running(current),
    }
}

/// How a start or switch is sent to the loader.
#[derive(Debug, Clone, Copy, PartialEq, Eq, Structural)]
pub enum LaunchPlan {
    /// With the arguments the user gave, which override every mode.
    WithArgs,
    /// In a mode.
    InMode(ModeChoice),
}

/// How a start or switch to `target` is sent, once it is not refused:
/// with the user's arguments when there are any; otherwise a start uses
/// the mode asked for or `Auto`, and a switch uses the mode that
/// `choose_switch_mode` picks.
pub fn plan_launch(
    kind: LaunchKind,
    has_args: bool,
    explicit: Option<SchedMode>,
    target: &SupportedSched,
    current_name: &str,
) -> (res: LaunchPlan)
    ensures
        res == if has_args {
            LaunchPlan::WithArgs
        } else {
            match kind {
                LaunchKind::Start => LaunchPlan::InMode(
                    ModeChoice::Use(
                        match explicit {
                            Some(m) => m,
                            None => SchedMode::Auto,
                        },
                    ),
                ),
                LaunchKind::Switch => LaunchPlan::InMode(
                    match explicit {
                        Some(m) => ModeChoice::Use(m),
                        None => if sched_name_spec(*target) != current_name@ {
                            ModeChoice::Use(SchedMode::Auto)
                        } else {
                            ModeChoice::KeepCurrent
                        },
                    },
                ),
            }
        },
{
    if has_args {
        return LaunchPlan::WithArgs;
    }
    match kind {
        LaunchKind::Start => LaunchPlan::InMode(
            ModeChoice::Use(
                match explicit {
                    Some(m) => m,
                    None => SchedMode::Auto,
                },
            ),
        ),
        LaunchKind::Switch => LaunchPlan::InMode(choose_switch_mode(explicit, target, current_name)),
    }
}

} // verus!

