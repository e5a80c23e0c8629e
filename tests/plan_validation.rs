use wl::config::{
    step_duration_ms, step_env, step_processes, step_stdout, validate_config, Config, ConfigError,
    Dependency, Parallel, Step,
};

fn step(runtime: &str) -> Step {
    Step {
        id: None,
        runtime: runtime.to_string(),
        parallel: None,
        location: None,
        stdout: None,
        duration_ms: None,
        env: None,
        wrapper: None,
        executable: None,
        args: None,
        command: None,
        shell: None,
        depends_on: None,
        when: None,
    }
}

fn shell_step(id: &str, command: &str) -> Step {
    let mut s = step("shell");
    s.id = Some(id.to_string());
    s.command = Some(command.to_string());
    s
}

fn dep(id: &str, when: Option<&str>, codes: Option<Vec<i32>>) -> Dependency {
    Dependency { id: id.to_string(), when: when.map(|w| w.to_string()), exit_codes: codes }
}

fn plan(steps: Vec<Step>) -> Config {
    Config { steps }
}

#[test]
fn empty_plan_is_refused() {
    assert_eq!(validate_config(&plan(vec![])), Err(ConfigError::EmptySteps));
}

#[test]
fn valid_plan_is_accepted() {
    let a = shell_step("A", "exit 3");
    let mut b = shell_step("B", "echo done");
    b.depends_on = Some(vec![dep("A", Some("exited"), Some(vec![3]))]);
    assert_eq!(validate_config(&plan(vec![a, b])), Ok(()));
}

#[test]
fn blank_runtime_is_refused() {
    assert_eq!(validate_config(&plan(vec![step("   ")])), Err(ConfigError::MissingRuntime));
}

#[test]
fn zero_processes_is_refused() {
    let mut s = shell_step("A", "true");
    s.parallel = Some(Parallel { processes: Some(0), threads: None });
    assert_eq!(validate_config(&plan(vec![s])), Err(ConfigError::ZeroProcesses));
}

#[test]
fn zero_threads_is_refused() {
    let mut s = shell_step("A", "true");
    s.parallel = Some(Parallel { processes: Some(2), threads: Some(0) });
    assert_eq!(validate_config(&plan(vec![s])), Err(ConfigError::ZeroThreads));
}

#[test]
fn zero_duration_is_refused() {
    let mut s = shell_step("A", "true");
    s.duration_ms = Some(0);
    assert_eq!(validate_config(&plan(vec![s])), Err(ConfigError::ZeroDuration));
}

#[test]
fn bin_without_exec_is_refused_whatever_the_case() {
    assert_eq!(validate_config(&plan(vec![step(" BIN ")])), Err(ConfigError::MissingExec));
    let mut s = step("bin");
    s.executable = Some(String::new());
    assert_eq!(validate_config(&plan(vec![s])), Err(ConfigError::MissingExec));
}

#[test]
fn shell_without_command_is_refused() {
    assert_eq!(validate_config(&plan(vec![step("Shell")])), Err(ConfigError::MissingCommand));
}

#[test]
fn other_runtimes_need_no_task_fields() {
    assert_eq!(validate_config(&plan(vec![step("python")])), Ok(()));
}

#[test]
fn dependencies_without_step_id_are_refused() {
    let mut s = step("python");
    s.depends_on = Some(vec![dep("A", None, None)]);
    assert_eq!(validate_config(&plan(vec![s])), Err(ConfigError::MissingStepId));
}

#[test]
fn blank_dependency_id_is_refused() {
    let mut s = shell_step("B", "true");
    s.depends_on = Some(vec![dep("  ", None, None)]);
    assert_eq!(validate_config(&plan(vec![s])), Err(ConfigError::MissingDependencyId));
}

#[test]
fn unknown_when_is_refused() {
    let mut s = shell_step("B", "true");
    s.depends_on = Some(vec![dep("A", Some("finished"), None)]);
    assert_eq!(validate_config(&plan(vec![s])), Err(ConfigError::InvalidWhen));
}

#[test]
fn exit_codes_need_exited() {
    let mut s = shell_step("B", "true");
    s.depends_on = Some(vec![dep("A", Some("started"), Some(vec![0]))]);
    assert_eq!(validate_config(&plan(vec![s])), Err(ConfigError::ExitCodesWithoutExited));
    let mut t = shell_step("C", "true");
    t.depends_on = Some(vec![dep("A", None, Some(vec![0]))]);
    assert_eq!(validate_config(&plan(vec![t])), Err(ConfigError::ExitCodesWithoutExited));
}

#[test]
fn first_failing_step_is_reported() {
    let mut first = shell_step("A", "true");
    first.duration_ms = Some(0);
    let second = step("");
    assert_eq!(validate_config(&plan(vec![first, second])), Err(ConfigError::ZeroDuration));
    let ok = shell_step("A", "true");
    let bad = step("bin");
    assert_eq!(validate_config(&plan(vec![ok, bad])), Err(ConfigError::MissingExec));
}

#[test]
fn error_messages_describe_the_problem() {
    assert_eq!(ConfigError::EmptySteps.message(), "steps must not be empty");
    assert_eq!(
        ConfigError::ExitCodesWithoutExited.message(),
        "depends_on.exit_codes requires when: exited"
    );
}

#[test]
fn step_getters_apply_defaults() {
    let mut s = shell_step("A", "true");
    assert_eq!(step_processes(&s), 1);
    assert!(!step_stdout(&s));
    assert_eq!(step_duration_ms(&s), None);
    assert!(step_env(&s).is_empty());
    s.parallel = Some(Parallel { processes: Some(4), threads: None });
    s.stdout = Some(true);
    s.duration_ms = Some(250);
    s.env = Some(vec![
        ("B".to_string(), "2".to_string()),
        ("A".to_string(), "1".to_string()),
    ]);
    assert_eq!(step_processes(&s), 4);
    assert!(step_stdout(&s));
    assert_eq!(step_duration_ms(&s), Some(250));
    assert_eq!(
        step_env(&s),
        vec![("B".to_string(), "2".to_string()), ("A".to_string(), "1".to_string())]
    );
}
