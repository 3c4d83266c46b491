//! Which applications of an environment to start.

use vstd::prelude::*;
use crate::config::{Config, apps_of};

verus! {

/// What to do with one application of the environment being launched.
#[derive(Debug, PartialEq, Eq)]
pub enum LaunchStep {
    /// Start it as a detached process.
    Spawn(String),
    /// Leave it alone: it is already running.
    Skip(String),
}

/// Why nothing was launched.
#[derive(Debug, Clone, Copy, PartialEq, Eq, Structural)]
pub enum LaunchError {
    /// No environment has the given name.
    EnvironmentNotFound,
}

/// The application that a step is about.
pub open spec fn step_app(s: LaunchStep) -> Seq<char> {
    match s {
        LaunchStep::Spawn(a) => a@,
        LaunchStep::Skip(a) => a@,
    }
}

/// The host reported application `i` as running. A missing answer counts as
/// "not running".
pub open spec fn running_at(running: Seq<bool>, i: int) -> bool {
    0 <= i < running.len() && running[i]
}

/// An application is started unless launching is not forced and it already
/// runs.
pub open spec fn spawns(force: bool, running: Seq<bool>, i: int) -> bool {
    force || !running_at(running, i)
}

/// The steps that launch environment `env`, one per application, in the
/// environment's order; `running[i]` says whether application `i` was found
/// running (it need not be asked when `force` holds). Fails iff there is no
/// such environment.
pub fn plan_launch(config: &Config, env: &str, force: bool, running: &Vec<bool>) -> (r: Result<
    Vec<LaunchStep>,
    LaunchError,
>)
    requires
        config.wf(),
    ensures
        r is Err <==> apps_of(config@, env@) is None,
        match r {
            Ok(steps) => {
                let apps = apps_of(config@, env@).unwrap();
                &&& steps@.len() == apps.len()
                &&& forall|i: int|
                    0 <= i < apps.len() ==> step_app(#[trigger] steps@[i]) == apps[i] && (
                    steps@[i] is Spawn <==> spawns(force, running@, i))
            },
            Err(e) => e == LaunchError::EnvironmentNotFound,
        },
{
    let apps = match config.apps(env) {
        Some(apps) => apps,
        None => return Err(LaunchError::EnvironmentNotFound),
    };
    let mut steps: Vec<LaunchStep> = Vec::new();
    let mut i: usize = 0;
    while i < apps.len()
        invariant
            i <= apps@.len(),
            steps@.len() == i,
            forall|j: int|
                0 <= j < i ==> step_app(#[trigger] steps@[j]) == apps@[j]@ && (steps@[j] is Spawn
                    <==> spawns(force, running@, j)),
        decreases apps.len() - i,
    {
        let app = apps[i].clone();
        if !force && i < running.len() && running[i] {
            steps.push(LaunchStep::Skip(app));
        } else {
            steps.push(LaunchStep::Spawn(app));
        }
        i = i + 1;
    }
    Ok(steps)
}

} // verus!
