use wl::lifecycle::{Action, Event, Lifecycle};

fn drive(replicas: usize, duration: Option<u64>, pids: &[u32], codes: &[i32]) -> Vec<Action> {
    let mut lc = Lifecycle::new(replicas, duration);
    let mut actions = Vec::new();
    let mut next_pid = 0;
    let mut next_code = 0;
    loop {
        let action = lc.next_action();
        let event = match &action {
            Action::Spawn(_) => {
                next_pid += 1;
                Event::Spawned(pids[next_pid - 1])
            }
            Action::Announce(_) => Event::Announced,
            Action::Sleep(_) => Event::Slept,
            Action::KillAll => Event::Killed,
            Action::Wait(_) => {
                next_code += 1;
                Event::Exited(codes[next_code - 1])
            }
            Action::Report(_) => Event::Reported,
            Action::Complete => {
                actions.push(action);
                return actions;
            }
        };
        actions.push(action);
        assert!(lc.observe(event));
    }
}

#[test]
fn replicas_spawn_then_wait_in_order() {
    let actions = drive(3, None, &[10, 11, 12], &[0, 1, 2]);
    assert_eq!(
        actions,
        vec![
            Action::Spawn(0),
            Action::Spawn(1),
            Action::Spawn(2),
            Action::Announce(vec![10, 11, 12]),
            Action::Wait(0),
            Action::Wait(1),
            Action::Wait(2),
            Action::Report(vec![0, 1, 2]),
            Action::Complete,
        ]
    );
}

#[test]
fn capped_step_is_killed_before_waiting() {
    let actions = drive(2, Some(500), &[7, 8], &[-1, -1]);
    assert_eq!(
        actions,
        vec![
            Action::Spawn(0),
            Action::Spawn(1),
            Action::Announce(vec![7, 8]),
            Action::Sleep(500),
            Action::KillAll,
            Action::Wait(0),
            Action::Wait(1),
            Action::Report(vec![-1, -1]),
            Action::Complete,
        ]
    );
}

#[test]
fn unexpected_event_is_refused() {
    let mut lc = Lifecycle::new(1, None);
    assert_eq!(lc.next_action(), Action::Spawn(0));
    assert!(!lc.observe(Event::Exited(0)));
    assert!(!lc.observe(Event::Killed));
    assert_eq!(lc.next_action(), Action::Spawn(0));
    assert!(lc.observe(Event::Spawned(3)));
    assert!(!lc.observe(Event::Spawned(4)));
    assert_eq!(lc.next_action(), Action::Announce(vec![3]));
}

#[test]
fn no_replicas_publish_empty_lists() {
    let actions = drive(0, None, &[], &[]);
    assert_eq!(
        actions,
        vec![Action::Announce(vec![]), Action::Report(vec![]), Action::Complete]
    );
}
