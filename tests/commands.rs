use wl::command::{base_argv, replica_commands, wrap_command};
use wl::config::{ConfigError, Parallel, Step};
use wl::runtime::RuntimeKind;

fn step(runtime: &str) -> Step {
    Step {
        id: Some("A".to_string()),
        runtime: runtime.to_string(),
        parallel: None,
        location: None,
        stdout: None,
        duration_ms: None,
        env: None,
        wrapper: None,
        executable: None,
        args: None,
        command: None,
        shell: None,
        depends_on: None,
        when: None,
    }
}

fn strings(v: &[&str]) -> Vec<String> {
    v.iter().map(|s| s.to_string()).collect()
}

#[test]
fn shell_step_runs_command_through_login_shell() {
    let mut s = step("shell");
    s.command = Some("exit 3".to_string());
    assert_eq!(base_argv(RuntimeKind::Shell, &s, "").unwrap(), strings(&["bash", "-lc", "exit 3"]));
    s.shell = Some("sh".to_string());
    assert_eq!(base_argv(RuntimeKind::Shell, &s, "").unwrap(), strings(&["sh", "-lc", "exit 3"]));
}

#[test]
fn interpreted_steps_run_their_source() {
    let mut s = step("python");
    s.args = Some(strings(&["--size", "4"]));
    assert_eq!(
        base_argv(RuntimeKind::Python, &s, "main.py").unwrap(),
        strings(&["python3", "main.py", "--size", "4"])
    );
    assert_eq!(
        base_argv(RuntimeKind::Node, &s, "main.js").unwrap(),
        strings(&["node", "main.js", "--size", "4"])
    );
    assert_eq!(
        base_argv(RuntimeKind::Golang, &s, "/tmp/build").unwrap(),
        strings(&["/tmp/build", "--size", "4"])
    );
}

#[test]
fn bin_and_shell_need_their_program() {
    let s = step("bin");
    assert_eq!(base_argv(RuntimeKind::Bin, &s, "").unwrap_err(), ConfigError::MissingExec);
    assert_eq!(base_argv(RuntimeKind::Shell, &s, "").unwrap_err(), ConfigError::MissingCommand);
    let mut b = step("bin");
    b.executable = Some("/bin/sleep".to_string());
    b.args = Some(strings(&["1"]));
    assert_eq!(base_argv(RuntimeKind::Bin, &b, "").unwrap(), strings(&["/bin/sleep", "1"]));
}

#[test]
fn wrapper_words_precede_a_separator() {
    let base = strings(&["bash", "-lc", "echo hi"]);
    let w = wrap_command(&Some("  strace   -f ".to_string()), &base);
    assert_eq!(w.argv, strings(&["strace", "-f", "--", "bash", "-lc", "echo hi"]));
    assert_eq!(w.display, "strace -f -- bash -lc echo hi");
}

#[test]
fn blank_wrapper_is_ignored() {
    let base = strings(&["/bin/true"]);
    let w = wrap_command(&Some("   ".to_string()), &base);
    assert_eq!(w.argv, strings(&["/bin/true"]));
    assert_eq!(w.display, "/bin/true");
    let n = wrap_command(&None, &base);
    assert_eq!(n.argv, strings(&["/bin/true"]));
}

#[test]
fn one_command_per_replica() {
    let mut s = step("shell");
    s.command = Some("sleep 1".to_string());
    s.parallel = Some(Parallel { processes: Some(3), threads: None });
    s.env = Some(vec![("K".to_string(), "V".to_string())]);
    let cmds = replica_commands(RuntimeKind::Shell, &s, "").unwrap();
    assert_eq!(cmds.len(), 3);
    for c in &cmds {
        assert_eq!(c.argv, strings(&["bash", "-lc", "sleep 1"]));
        assert_eq!(c.display, "bash -lc sleep 1");
        assert_eq!(c.env, vec![("K".to_string(), "V".to_string())]);
    }
}
