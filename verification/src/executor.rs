use vstd::prelude::*;

use crate::errors::CfhdbError;

verus! {

/// The shell prelude every generated script starts with: a bash shebang and
/// `set -e`, so that any failing line aborts the remaining steps.
pub open spec fn script_prelude() -> Seq<char> {
    "#! /bin/bash\nset -e\n"@
}

/// The text handed to the shell for a profile's installed-status check.
pub open spec fn check_script_text(check: Seq<char>) -> Seq<char> {
    script_prelude() + check
}

/// The combined install or remove script: the package-manager command (if
/// any) first, then the profile's shell fragment (if any); `None` when
/// neither is present, in which case nothing executes.
pub open spec fn combined_script_text(pkg_cmd: Option<Seq<char>>, fragment: Option<Seq<char>>) -> Option<
    Seq<char>,
> {
    match (fragment, pkg_cmd) {
        (Some(f), Some(c)) => Some(script_prelude() + c + "\n"@ + f),
        (Some(f), None) => Some(script_prelude() + f),
        (None, Some(c)) => Some(script_prelude() + c),
        (None, None) => None,
    }
}

/// What an install or remove invocation decides to do before any side
/// effect happens.
pub enum ExecPlan {
    /// The profile already reports the requested state: nothing runs.
    AlreadySettled,
    /// Neither a package step nor a script fragment exists: nothing runs.
    NothingToRun,
    /// This script text runs under a single shell invocation.
    RunScript(String),
}

/// How a driven invocation ended.
#[derive(Clone, Copy, Debug, PartialEq, Eq, Structural)]
pub enum ExecOutcome {
    /// The profile already reported the requested state; no side effects.
    AlreadySettled,
    /// There was nothing to execute.
    NothingToRun,
    /// The combined script ran and exited successfully.
    Applied,
}

/// Relates a plan to the optional script text it should carry.
pub open spec fn plan_carries(r: ExecPlan, t: Option<Seq<char>>) -> bool {
    match (r, t) {
        (ExecPlan::RunScript(s), Some(x)) => s@ == x,
        (ExecPlan::NothingToRun, None) => true,
        _ => false,
    }
}

/// Builds the status-check script text for a check fragment.
pub fn build_check_script(check: &String) -> (r: String)
    ensures
        r@ == check_script_text(check@),
{
    let mut s = String::from_str("#! /bin/bash\nset -e\n");
    s.append(check.as_str());
    s
}

/// Decides an install or remove invocation.  When the profile already
/// reports the requested state the call is a no-op; this makes driving the
/// same transition twice in a row side-effect free.  Otherwise the plan
/// carries exactly the combined script of the package-manager command and
/// the profile's fragment, or nothing when neither exists.
pub fn plan_action(already_settled: bool, pkg_cmd: &Option<String>, fragment: &Option<String>) -> (r:
    ExecPlan)
    ensures
        already_settled ==> r == ExecPlan::AlreadySettled,
        !already_settled ==> plan_carries(
            r,
            combined_script_text(pkg_cmd.deep_view(), fragment.deep_view()),
        ),
{
    if already_settled {
        return ExecPlan::AlreadySettled;
    }
    match (fragment, pkg_cmd) {
        (Some(f), Some(c)) => {
            let mut s = String::from_str("#! /bin/bash\nset -e\n");
            s.append(c.as_str());
            s.append("\n");
            s.append(f.as_str());
            ExecPlan::RunScript(s)
        },
        (Some(f), None) => {
            let mut s = String::from_str("#! /bin/bash\nset -e\n");
            s.append(f.as_str());
            ExecPlan::RunScript(s)
        },
        (None, Some(c)) => {
            let mut s = String::from_str("#! /bin/bash\nset -e\n");
            s.append(c.as_str());
            ExecPlan::RunScript(s)
        },
        (None, None) => ExecPlan::NothingToRun,
    }
}

/// Relies on `duct::cmd` and `duct::Expression::run`: hands the script text
/// to `bash -c` with stdout and stderr discarded, and returns whether the
/// process spawned and exited with status 0.  The result depends on the
/// machine's state, so nothing is promised of its value.
#[verifier::external_body]
pub(crate) fn run_shell(script: &str) -> bool {
    duct::cmd("bash", &["-c", script]).stderr_to_stdout().stdout_null().run().is_ok()
}

/// Runs a profile's status check: materializes the check script text and
/// executes it through the shell, true exactly when it exited 0.  The value
/// depends on the machine's state.
pub fn run_status_check(check: &String) -> bool {
    let script = build_check_script(check);
    run_shell(script.as_str())
}

/// Carries a plan out.  A plan without a script succeeds without side
/// effects; a script plan runs it once and reports the opaque execution
/// error when the process fails to spawn or exits non-zero.
pub fn execute_plan(plan: ExecPlan) -> (r: Result<ExecOutcome, CfhdbError>)
    ensures
        plan is AlreadySettled <==> r == Ok::<ExecOutcome, CfhdbError>(
            ExecOutcome::AlreadySettled,
        ),
        plan is NothingToRun <==> r == Ok::<ExecOutcome, CfhdbError>(ExecOutcome::NothingToRun),
        plan is RunScript ==> (r == Ok::<ExecOutcome, CfhdbError>(ExecOutcome::Applied) || r
            == Err::<ExecOutcome, CfhdbError>(CfhdbError::ExecutionFailure)),
{
    match plan {
        ExecPlan::AlreadySettled => Ok(ExecOutcome::AlreadySettled),
        ExecPlan::NothingToRun => Ok(ExecOutcome::NothingToRun),
        ExecPlan::RunScript(s) => {
            if run_shell(s.as_str()) {
                Ok(ExecOutcome::Applied)
            } else {
                Err(CfhdbError::ExecutionFailure)
            }
        },
    }
}

} // verus!
