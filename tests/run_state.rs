use wl::config::{Dependency, Step};
use wl::state::{dependency_satisfied, RunState, StepRecord};
use wl::worker::{step_readiness, Readiness};
use wl::config::ConfigError;

fn dep(id: &str, when: Option<&str>, codes: Option<Vec<i32>>) -> Dependency {
    Dependency { id: id.to_string(), when: when.map(|w| w.to_string()), exit_codes: codes }
}

fn dependent(id: Option<&str>, deps: Vec<Dependency>) -> Step {
    Step {
        id: id.map(|s| s.to_string()),
        runtime: "shell".to_string(),
        parallel: None,
        location: None,
        stdout: None,
        duration_ms: None,
        env: None,
        wrapper: None,
        executable: None,
        args: None,
        command: Some("echo".to_string()),
        shell: None,
        depends_on: Some(deps),
        when: None,
    }
}

#[test]
fn started_dependency_waits_for_published_pids() {
    let mut state = RunState::new();
    let b = dependent(Some("B"), vec![dep("A", Some("started"), None)]);
    assert_eq!(step_readiness(&b, &state), Readiness::Blocked(0));
    state.update_finished("Z", vec![0]);
    assert_eq!(step_readiness(&b, &state), Readiness::Blocked(0));
    state.update_started("A", vec![111]);
    assert_eq!(step_readiness(&b, &state), Readiness::Ready);
    assert_eq!(state.record("A").unwrap().pids, vec![111]);
}

#[test]
fn default_condition_is_started() {
    let mut state = RunState::new();
    let b = dependent(Some("B"), vec![dep("A", None, None)]);
    assert_eq!(step_readiness(&b, &state), Readiness::Blocked(0));
    state.update_started("A", vec![5]);
    assert_eq!(step_readiness(&b, &state), Readiness::Ready);
}

#[test]
fn exited_dependency_checks_every_code() {
    let mut state = RunState::new();
    let b = dependent(Some("B"), vec![dep("A", Some("exited"), Some(vec![0]))]);
    state.update_started("A", vec![1, 2]);
    assert_eq!(step_readiness(&b, &state), Readiness::Blocked(0));
    state.update_finished("A", vec![0, 1]);
    assert_eq!(step_readiness(&b, &state), Readiness::Blocked(0));
    state.update_started("C", vec![9]);
    state.update_finished("C", vec![0]);
    assert_eq!(step_readiness(&b, &state), Readiness::Blocked(0));

    let mut clean = RunState::new();
    clean.update_started("A", vec![1, 2]);
    clean.update_finished("A", vec![0, 0]);
    assert_eq!(step_readiness(&b, &clean), Readiness::Ready);
}

#[test]
fn exit_three_allowed_by_list_unblocks() {
    let mut state = RunState::new();
    let b = dependent(Some("B"), vec![dep("A", Some("exited"), Some(vec![3]))]);
    assert_eq!(step_readiness(&b, &state), Readiness::Blocked(0));
    state.update_started("A", vec![400]);
    assert_eq!(step_readiness(&b, &state), Readiness::Blocked(0));
    state.update_finished("A", vec![3]);
    assert_eq!(step_readiness(&b, &state), Readiness::Ready);
}

#[test]
fn exit_three_against_zero_list_stays_blocked() {
    let mut state = RunState::new();
    let b = dependent(Some("B"), vec![dep("A", Some("exited"), Some(vec![0]))]);
    state.update_started("A", vec![400]);
    state.update_finished("A", vec![3]);
    assert_eq!(step_readiness(&b, &state), Readiness::Blocked(0));
    state.update_started("C", vec![401]);
    assert_eq!(step_readiness(&b, &state), Readiness::Blocked(0));
}

#[test]
fn exited_without_list_accepts_any_code() {
    let mut state = RunState::new();
    let b = dependent(Some("B"), vec![dep("A", Some("exited"), None)]);
    state.update_started("A", vec![1]);
    assert_eq!(step_readiness(&b, &state), Readiness::Blocked(0));
    state.update_finished("A", vec![-1]);
    assert_eq!(step_readiness(&b, &state), Readiness::Ready);
}

#[test]
fn first_pending_dependency_is_reported() {
    let mut state = RunState::new();
    let b = dependent(Some("B"), vec![dep("A", None, None), dep("C", None, None)]);
    state.update_started("A", vec![1]);
    assert_eq!(step_readiness(&b, &state), Readiness::Blocked(1));
}

#[test]
fn dependencies_without_id_refuse_to_run() {
    let state = RunState::new();
    let b = dependent(None, vec![dep("A", None, None)]);
    assert_eq!(step_readiness(&b, &state), Readiness::Refused(ConfigError::MissingStepId));
    let mut free = dependent(None, vec![]);
    free.depends_on = None;
    assert_eq!(step_readiness(&free, &state), Readiness::Ready);
}

#[test]
fn snapshot_lists_every_step_seen() {
    let mut state = RunState::new();
    state.update_finished("F", vec![0]);
    state.update_started("A", vec![10, 11]);
    let snap = state.snapshot_pids();
    assert_eq!(snap.get("A"), Some(&vec![10, 11]));
    assert_eq!(snap.get("F"), Some(&vec![]));
    assert_eq!(snap.get("Q"), None);
}

#[test]
fn records_keep_both_publications() {
    let mut state = RunState::new();
    assert!(state.record("A").is_none());
    state.update_started("A", vec![7]);
    state.update_finished("A", vec![2]);
    let rec = state.record("A").unwrap();
    assert!(rec.started && rec.finished);
    assert_eq!(rec.pids, vec![7]);
    assert_eq!(rec.exit_codes, vec![2]);
}

#[test]
fn satisfaction_of_a_missing_record_is_false() {
    let d = dep("A", None, None);
    assert!(!dependency_satisfied(&d, None));
    let rec = StepRecord { started: true, finished: false, pids: vec![1], exit_codes: vec![] };
    assert!(dependency_satisfied(&d, Some(&rec)));
    let exited = dep("A", Some("exited"), None);
    assert!(!dependency_satisfied(&exited, Some(&rec)));
    let odd = dep("A", Some("later"), None);
    assert!(!dependency_satisfied(&odd, Some(&rec)));
}
