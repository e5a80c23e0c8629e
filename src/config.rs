//! The plan model: steps, their dependencies, and structural validation.
use vstd::prelude::*;
use crate::text::{lower_of, lowercase_text, same_text, trim_of, trim_text};

verus! {

/// Process and thread replication of a step.
#[derive(Debug, Clone)]
pub struct Parallel {
    pub processes: Option<u32>,
    pub threads: Option<u32>,
}

/// A step's wait on another step reaching a lifecycle point.
#[derive(Debug, Clone)]
pub struct Dependency {
    /// The step waited on.
    pub id: String,
    /// `started` (the default) or `exited`.
    pub when: Option<String>,
    /// Acceptable exit codes, only with `when: exited`.
    pub exit_codes: Option<Vec<i32>>,
}

/// One declared unit of work, launching one or more replica processes.
#[derive(Debug, Clone)]
pub struct Step {
    pub id: Option<String>,
    pub runtime: String,
    pub parallel: Option<Parallel>,
    pub location: Option<String>,
    pub stdout: Option<bool>,
    pub duration_ms: Option<u64>,
    /// Environment overrides, in declaration order.
    pub env: Option<Vec<(String, String)>>,
    pub wrapper: Option<String>,
    /// The program of a `bin` step.
    pub executable: Option<String>,
    pub args: Option<Vec<String>>,
    pub command: Option<String>,
    pub shell: Option<String>,
    pub depends_on: Option<Vec<Dependency>>,
    pub when: Option<String>,
}

/// A whole plan: its steps, in declaration order.
#[derive(Debug, Clone)]
pub struct Config {
    pub steps: Vec<Step>,
}

/// Why a plan is refused before any process starts.
#[derive(Debug, Clone, Copy, PartialEq, Eq, Structural)]
pub enum ConfigError {
    EmptySteps,
    MissingRuntime,
    ZeroProcesses,
    ZeroThreads,
    ZeroDuration,
    MissingExec,
    MissingCommand,
    MissingStepId,
    MissingDependencyId,
    InvalidWhen,
    ExitCodesWithoutExited,
}

impl ConfigError {
    /// A human-readable description of the error.
    pub fn message(&self) -> &'static str {
        match self {
            ConfigError::EmptySteps => "steps must not be empty",
            ConfigError::MissingRuntime => "runtime must be set",
            ConfigError::ZeroProcesses => "parallel.processes must be > 0",
            ConfigError::ZeroThreads => "parallel.threads must be > 0",
            ConfigError::ZeroDuration => "duration_ms must be > 0",
            ConfigError::MissingExec => "bin runtime requires 'exec'",
            ConfigError::MissingCommand => "shell runtime requires 'command'",
            ConfigError::MissingStepId => "step id is required when using depends_on",
            ConfigError::MissingDependencyId => "depends_on.id must be set",
            ConfigError::InvalidWhen => "depends_on.when must be 'started' or 'exited'",
            ConfigError::ExitCodesWithoutExited => "depends_on.exit_codes requires when: exited",
        }
    }
}

/// The first error among a step's dependencies, in declaration order.
pub open spec fn first_dependency_error(deps: Seq<Dependency>) -> Option<ConfigError>
    decreases deps.len(),
{
    if deps.len() == 0 {
        None
    } else {
        match first_dependency_error(deps.drop_last()) {
            Some(e) => Some(e),
            None => dependency_error(deps.last()),
        }
    }
}

/// The first error among the steps, in declaration order.
pub open spec fn first_step_error(steps: Seq<Step>) -> Option<ConfigError>
    decreases steps.len(),
{
    if steps.len() == 0 {
        None
    } else {
        match first_step_error(steps.drop_last()) {
            Some(e) => Some(e),
            None => step_error(steps.last()),
        }
    }
}

proof fn lemma_first_dependency_error_prefix(s: Seq<Dependency>, k: int)
    requires
        0 <= k <= s.len(),
        first_dependency_error(s.take(k)) is Some,
    ensures
        first_dependency_error(s) == first_dependency_error(s.take(k)),
    decreases s.len() - k,
{
    if k < s.len() {
        assert(s.take(k + 1).drop_last() =~= s.take(k));
        lemma_first_dependency_error_prefix(s, k + 1);
    } else {
        assert(s.take(k) =~= s);
    }
}

proof fn lemma_first_step_error_prefix(s: Seq<Step>, k: int)
    requires
        0 <= k <= s.len(),
        first_step_error(s.take(k)) is Some,
    ensures
        first_step_error(s) == first_step_error(s.take(k)),
    decreases s.len() - k,
{
    if k < s.len() {
        assert(s.take(k + 1).drop_last() =~= s.take(k));
        lemma_first_step_error_prefix(s, k + 1);
    } else {
        assert(s.take(k) =~= s);
    }
}

/// A text that is absent or empty.
pub open spec fn text_missing(t: Option<String>) -> bool {
    t is None || t.unwrap()@.len() == 0
}

/// The runtime name as compared: trimmed and lower-cased.
pub open spec fn normalized_runtime(step: Step) -> Seq<char> {
    lower_of(trim_of(step.runtime@))
}

/// What is wrong with one dependency declaration, if anything.
pub open spec fn dependency_error(dep: Dependency) -> Option<ConfigError> {
    if trim_of(dep.id@).len() == 0 {
        Some(ConfigError::MissingDependencyId)
    } else if dep.when is Some && dep.when.unwrap()@ != "started"@ && dep.when.unwrap()@
        != "exited"@ {
        Some(ConfigError::InvalidWhen)
    } else if dep.exit_codes is Some && !(dep.when is Some && dep.when.unwrap()@ == "exited"@) {
        Some(ConfigError::ExitCodesWithoutExited)
    } else {
        None
    }
}

/// What is wrong with one step, if anything: the first failing check.
pub open spec fn step_error(step: Step) -> Option<ConfigError> {
    let rt = normalized_runtime(step);
    if rt.len() == 0 {
        Some(ConfigError::MissingRuntime)
    } else if step.parallel is Some && step.parallel.unwrap().processes == Some(0u32) {
        Some(ConfigError::ZeroProcesses)
    } else if step.parallel is Some && step.parallel.unwrap().threads == Some(0u32) {
        Some(ConfigError::ZeroThreads)
    } else if step.duration_ms == Some(0u64) {
        Some(ConfigError::ZeroDuration)
    } else if rt == "bin"@ && text_missing(step.executable) {
        Some(ConfigError::MissingExec)
    } else if rt == "shell"@ && text_missing(step.command) {
        Some(ConfigError::MissingCommand)
    } else if step.depends_on is Some && step.id is None {
        Some(ConfigError::MissingStepId)
    } else if step.depends_on is Some {
        first_dependency_error(step.depends_on.unwrap()@)
    } else {
        None
    }
}

/// What is wrong with a plan, if anything: no steps, or the first failing step.
pub open spec fn config_error(config: Config) -> Option<ConfigError> {
    if config.steps@.len() == 0 {
        Some(ConfigError::EmptySteps)
    } else {
        first_step_error(config.steps@)
    }
}

fn optional_text_missing(t: &Option<String>) -> (r: bool)
    ensures
        r == text_missing(*t),
{
    match t {
        Some(s) => s.as_str().unicode_len() == 0,
        None => true,
    }
}

fn check_dependency(dep: &Dependency) -> (r: Result<(), ConfigError>)
    ensures
        r == match dependency_error(*dep) {
            Some(e) => Err(e),
            None => Ok(()),
        },
{
    let id = trim_text(dep.id.as_str());
    if id.as_str().unicode_len() == 0 {
        return Err(ConfigError::MissingDependencyId);
    }
    let exited = match &dep.when {
        Some(when) => {
            let started = same_text(when.as_str(), "started");
            let exited = same_text(when.as_str(), "exited");
            if !started && !exited {
                return Err(ConfigError::InvalidWhen);
            }
            exited
        },
        None => false,
    };
    if dep.exit_codes.is_some() && !exited {
        return Err(ConfigError::ExitCodesWithoutExited);
    }
    Ok(())
}

fn check_step(step: &Step) -> (r: Result<(), ConfigError>)
    ensures
        r == match step_error(*step) {
            Some(e) => Err(e),
            None => Ok(()),
        },
{
    let trimmed = trim_text(step.runtime.as_str());
    let runtime = lowercase_text(trimmed.as_str());
    if runtime.as_str().unicode_len() == 0 {
        return Err(ConfigError::MissingRuntime);
    }
    if let Some(parallel) = &step.parallel {
        if let Some(processes) = parallel.processes {
            if processes == 0 {
                return Err(ConfigError::ZeroProcesses);
            }
        }
        if let Some(threads) = parallel.threads {
            if threads == 0 {
                return Err(ConfigError::ZeroThreads);
            }
        }
    }
    if let Some(duration) = step.duration_ms {
        if duration == 0 {
            return Err(ConfigError::ZeroDuration);
        }
    }
    proof {
        reveal_strlit("bin");
        reveal_strlit("shell");
    }
    if same_text(runtime.as_str(), "bin") {
        if optional_text_missing(&step.executable) {
            return Err(ConfigError::MissingExec);
        }
    } else if same_text(runtime.as_str(), "shell") {
        if optional_text_missing(&step.command) {
            return Err(ConfigError::MissingCommand);
        }
    }
    if let Some(deps) = &step.depends_on {
        if step.id.is_none() {
            return Err(ConfigError::MissingStepId);
        }
        assert(step_error(*step) == first_dependency_error(deps@));
        let n = deps.len();
        let mut i: usize = 0;
        while i < n
            invariant
                step_error(*step) == first_dependency_error(deps@),
                n == deps@.len(),
                i <= n,
                first_dependency_error(deps@.take(i as int)) is None,
            decreases n - i,
        {
            assert(deps@.take(i + 1).drop_last() =~= deps@.take(i as int));
            let checked = check_dependency(&deps[i]);
            if let Err(e) = checked {
                proof {
                    lemma_first_dependency_error_prefix(deps@, i + 1);
                }
                return Err(e);
            }
            i += 1;
        }
        assert(deps@.take(n as int) =~= deps@);
    }
    Ok(())
}

/// Checks a plan before anything runs: it must have steps, and each step
/// must pass its checks; the first failure found is returned.
pub fn validate_config(config: &Config) -> (r: Result<(), ConfigError>)
    ensures
        r == match config_error(*config) {
            Some(e) => Err(e),
            None => Ok(()),
        },
        config.steps@.len() == 0 ==> r == Err::<(), ConfigError>(ConfigError::EmptySteps),
{
    let n = config.steps.len();
    if n == 0 {
        return Err(ConfigError::EmptySteps);
    }
    let mut i: usize = 0;
    while i < n
        invariant
            n == config.steps@.len(),
            i <= n,
            first_step_error(config.steps@.take(i as int)) is None,
        decreases n - i,
    {
        assert(config.steps@.take(i + 1).drop_last() =~= config.steps@.take(i as int));
        let checked = check_step(&config.steps[i]);
        if let Err(e) = checked {
            proof {
                lemma_first_step_error_prefix(config.steps@, i + 1);
            }
            return Err(e);
        }
        i += 1;
    }
    assert(config.steps@.take(n as int) =~= config.steps@);
    Ok(())
}

/// Replica count of a step: `parallel.processes`, or one.
pub open spec fn processes_of(step: Step) -> u32 {
    match step.parallel {
        Some(p) => match p.processes {
            Some(n) => n,
            None => 1,
        },
        None => 1,
    }
}

/// The number of replica processes a step launches.
pub fn step_processes(step: &Step) -> (r: u32)
    ensures
        r == processes_of(*step),
{
    match &step.parallel {
        Some(parallel) => match parallel.processes {
            Some(n) => n,
            None => 1,
        },
        None => 1,
    }
}

/// Whether the step's standard output is captured and echoed.
pub fn step_stdout(step: &Step) -> (r: bool)
    ensures
        r == (step.stdout == Some(true)),
{
    match step.stdout {
        Some(b) => b,
        None => false,
    }
}

/// The step's enforced duration, if any.
pub fn step_duration_ms(step: &Step) -> (r: Option<u64>)
    ensures
        r == step.duration_ms,
{
    step.duration_ms
}

/// Environment overrides of a step, as declared.
pub open spec fn env_of(step: Step) -> Seq<(String, String)> {
    match step.env {
        Some(env) => env@,
        None => Seq::empty(),
    }
}

/// Copies a list of key and value pairs.
pub fn copy_pairs(pairs: &Vec<(String, String)>) -> (r: Vec<(String, String)>)
    ensures
        r@ == pairs@,
{
    let mut out: Vec<(String, String)> = Vec::new();
    let n = pairs.len();
    let mut i: usize = 0;
    while i < n
        invariant
            n == pairs@.len(),
            i <= n,
            out@ == pairs@.take(i as int),
        decreases n - i,
    {
        let (k, v) = &pairs[i];
        out.push((k.clone(), v.clone()));
        i += 1;
        assert(out@ =~= pairs@.take(i as int));
    }
    assert(pairs@.take(n as int) =~= pairs@);
    out
}

/// The environment overrides of a step, in declaration order.
pub fn step_env(step: &Step) -> (r: Vec<(String, String)>)
    ensures
        r@ == env_of(*step),
{
    match &step.env {
        Some(env) => copy_pairs(env),
        None => Vec::new(),
    }
}

} // verus!
