//! What the command line asks of the service before it starts.

use vstd::prelude::*;
use crate::text::{chars_of, eq_ignore_ascii_case, str_equal};

verus! {

/// What a start of the program is for.
#[derive(Debug, Clone, Copy, PartialEq, Eq, Structural)]
pub enum CliAction {
    /// Signal the running instance to start or stop recording.
    Toggle,
    /// Signal the running instance to stop.
    Stop,
    /// Write the diagnostics report, resyncing the model store when `fix`.
    Diagnostics { fix: bool, open_report: bool },
    /// Start the service.
    Run,
}

pub open spec fn arg_is(args: Seq<String>, i: int, flag: Seq<char>) -> bool {
    args[i]@ == flag
}

pub open spec fn has_flag(args: Seq<String>, flag: Seq<char>) -> bool {
    exists|i: int| 0 <= i < args.len() && #[trigger] arg_is(args, i, flag)
}

/// The first `--toggle` or `--stop` among `args`, from position `i` on.
pub open spec fn first_signal(args: Seq<String>, i: int) -> Option<CliAction>
    decreases args.len() - i,
{
    if i < 0 || i >= args.len() {
        None
    } else if arg_is(args, i, "--toggle"@) {
        Some(CliAction::Toggle)
    } else if arg_is(args, i, "--stop"@) {
        Some(CliAction::Stop)
    } else {
        first_signal(args, i + 1)
    }
}

/// The action for the arguments (program name excluded): the first
/// `--toggle` or `--stop` wins; else `--foundation-check` or
/// `--foundation-fix` ask for diagnostics (a fix with `--foundation-fix`,
/// the report opened with `--open-report` or when no check was asked);
/// else the service runs.
pub open spec fn cli_action(args: Seq<String>) -> CliAction {
    match first_signal(args, 0) {
        Some(a) => a,
        None => {
            let check = has_flag(args, "--foundation-check"@);
            let fix = has_flag(args, "--foundation-fix"@);
            let open = has_flag(args, "--open-report"@);
            if check || fix {
                CliAction::Diagnostics { fix, open_report: open || !check }
            } else {
                CliAction::Run
            }
        },
    }
}

fn has_flag_exec(args: &[String], flag: &str) -> (r: bool)
    ensures
        r == has_flag(args@, flag@),
{
    let mut i: usize = 0;
    while i < args.len()
        invariant
            i <= args@.len(),
            forall|j: int| 0 <= j < i ==> !#[trigger] arg_is(args@, j, flag@),
        decreases args@.len() - i,
    {
        if str_equal(args[i].as_str(), flag) {
            assert(arg_is(args@, i as int, flag@));
            return true;
        }
        i = i + 1;
    }
    false
}

/// Reads the command line (program name excluded).
pub fn parse_cli(args: &[String]) -> (r: CliAction)
    ensures
        r == cli_action(args@),
{
    let mut i: usize = 0;
    while i < args.len()
        invariant
            i <= args@.len(),
            first_signal(args@, 0) == first_signal(args@, i as int),
        decreases args@.len() - i,
    {
        if str_equal(args[i].as_str(), "--toggle") {
            return CliAction::Toggle;
        }
        if str_equal(args[i].as_str(), "--stop") {
            return CliAction::Stop;
        }
        i = i + 1;
    }
    let check = has_flag_exec(args, "--foundation-check");
    let fix = has_flag_exec(args, "--foundation-fix");
    let open = has_flag_exec(args, "--open-report");
    if check || fix {
        CliAction::Diagnostics { fix, open_report: open || !check }
    } else {
        CliAction::Run
    }
}

/// The updater runs when `DICTATOR_ENABLE_UPDATER` is `1` or `true` (any
/// ASCII case).
pub open spec fn updater_on(value: Option<Seq<char>>) -> bool {
    match value {
        Some(v) => v == "1"@ || crate::text::ascii_lower(v) == crate::text::ascii_lower("true"@),
        None => false,
    }
}

/// Whether the updater should run, from the environment variable's value.
pub fn updater_enabled(value: Option<&str>) -> (r: bool)
    ensures
        r == updater_on(
            match value {
                Some(v) => Some(v@),
                None => None,
            },
        ),
{
    match value {
        Some(v) => str_equal(v, "1") || eq_ignore_ascii_case(&chars_of(v), &chars_of("true")),
        None => false,
    }
}


/// The onboarding marker under the folder `base`:
/// `<base>/dictator/state/onboarding_completed.marker`.
pub fn onboarding_marker_under(base: &str) -> (r: String)
    ensures
        crate::text::ends_with(r@, "onboarding_completed.marker"@),
        crate::paths::no_verbatim(base@) ==> crate::paths::joined3(
            r@,
            base@,
            "dictator"@,
            "state"@,
            "onboarding_completed.marker"@,
        ),
{
    proof {
        reveal_strlit("dictator");
        reveal_strlit("state");
        reveal_strlit("onboarding_completed.marker");
    }
    let a = crate::paths::path_join(base, "dictator");
    let b = crate::paths::path_join(a.as_str(), "state");
    let r = crate::paths::path_join(b.as_str(), "onboarding_completed.marker");
    proof {
        assert(crate::paths::plain_relative("dictator"@));
        assert(crate::paths::plain_relative("state"@));
        assert(crate::paths::plain_relative("onboarding_completed.marker"@));
        if crate::paths::no_verbatim(base@) {
            crate::paths::lemma_joined3(
                r@,
                b@,
                a@,
                base@,
                "dictator"@,
                "state"@,
                "onboarding_completed.marker"@,
            );
        }
    }
    r
}

/// The marker whose presence records that onboarding was completed, under
/// the local data folder, or under `temp_dir` (the temporary folder) when the
/// platform has none. Where the local data folder is depends on the
/// environment and is not stated.
pub fn onboarding_marker_path(temp_dir: &str) -> (r: String)
    ensures
        crate::text::ends_with(r@, "onboarding_completed.marker"@),
{
    match crate::paths::data_local_dir() {
        Some(base) => onboarding_marker_under(base.as_str()),
        None => onboarding_marker_under(temp_dir),
    }
}

/// Whether this is the first run: the onboarding marker is absent, as
/// `probe` (the caller's existence check on the disk) answers for it.
pub fn is_first_run<F: Fn(&str) -> bool>(marker_path: &str, probe: &F) -> (r: bool)
    requires
        forall|p: &str| #[trigger] call_requires(*probe, (p,)),
    ensures
        crate::model_store::probe_answer(*probe, marker_path@, !r),
{
    let present = probe(marker_path);
    proof {
        assert(call_ensures(*probe, (marker_path,), present));
    }
    !present
}

} // verus!
