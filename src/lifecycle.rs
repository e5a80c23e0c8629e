//! The lifecycle protocol of one step's replicas, as a state machine: the
//! caller performs each action (spawn, publish, sleep, kill, wait) and
//! reports what happened; the machine decides what comes next.
use vstd::prelude::*;
use crate::state::copy_values;

verus! {

/// Where a step's replicas are in their lifecycle.
#[derive(Debug, Clone, Copy, PartialEq, Eq, Structural)]
pub enum Phase {
    /// Replicas are being started, in order.
    Spawning,
    /// All replicas started; their process ids are to be published.
    Announcing,
    /// Waiting out the step's enforced duration.
    Sleeping,
    /// The duration is over; every replica is to be killed.
    Killing,
    /// Collecting exit codes, replica by replica, in spawn order.
    Waiting,
    /// All replicas exited; their exit codes are to be published.
    Reporting,
    /// Nothing left to do.
    Done,
}

/// What happened since the last action.
#[derive(Debug, Clone, Copy, PartialEq, Eq, Structural)]
pub enum Event {
    /// The next replica started with this process id.
    Spawned(u32),
    /// The start was published.
    Announced,
    /// The enforced duration went by.
    Slept,
    /// Every replica was sent a kill (failures to kill are not reported).
    Killed,
    /// The next replica exited with this code.
    Exited(i32),
    /// The finish was published.
    Reported,
}

/// What to do next.
#[derive(Debug, PartialEq, Eq)]
pub enum Action {
    /// Start replica `i`.
    Spawn(usize),
    /// Publish that the step started with these process ids.
    Announce(Vec<u32>),
    /// Sleep this many milliseconds.
    Sleep(u64),
    /// Kill every replica that is still running.
    KillAll,
    /// Wait for replica `i` to exit.
    Wait(usize),
    /// Publish that the step finished with these exit codes.
    Report(Vec<i32>),
    /// The step is over.
    Complete,
}

/// The lifecycle of a step's replicas.
pub struct Lifecycle {
    replicas: usize,
    duration_ms: Option<u64>,
    pids: Vec<u32>,
    exit_codes: Vec<i32>,
    killed: bool,
    phase: Phase,
}

/// A lifecycle as plain values.
pub struct LifecycleView {
    pub replicas: nat,
    pub duration_ms: Option<u64>,
    pub pids: Seq<u32>,
    pub exit_codes: Seq<i32>,
    pub killed: bool,
    pub phase: Phase,
}

impl View for Lifecycle {
    type V = LifecycleView;

    closed spec fn view(&self) -> LifecycleView {
        LifecycleView {
            replicas: self.replicas as nat,
            duration_ms: self.duration_ms,
            pids: self.pids@,
            exit_codes: self.exit_codes@,
            killed: self.killed,
            phase: self.phase,
        }
    }
}

/// The phase after all replicas were started and published, or after the
/// kill: collect exit codes, unless there are none to collect.
pub open spec fn collect_phase(replicas: nat) -> Phase {
    if replicas == 0 {
        Phase::Reporting
    } else {
        Phase::Waiting
    }
}

/// The consistent states of a lifecycle: ids are gathered before codes,
/// one of each per replica, in the same order; a capped step is killed
/// before any wait.
pub open spec fn lifecycle_wf(v: LifecycleView) -> bool {
    &&& v.pids.len() <= v.replicas
    &&& v.exit_codes.len() <= v.pids.len()
    &&& (v.phase == Phase::Spawning ==> v.pids.len() < v.replicas && v.exit_codes.len() == 0
        && !v.killed)
    &&& (v.phase == Phase::Announcing || v.phase == Phase::Sleeping || v.phase == Phase::Killing
        ==> v.pids.len() == v.replicas && v.exit_codes.len() == 0 && !v.killed)
    &&& (v.phase == Phase::Sleeping || v.phase == Phase::Killing ==> v.duration_ms is Some)
    &&& (v.phase == Phase::Waiting ==> v.pids.len() == v.replicas && v.exit_codes.len()
        < v.replicas)
    &&& (v.phase == Phase::Reporting || v.phase == Phase::Done ==> v.pids.len() == v.replicas
        && v.exit_codes.len() == v.replicas)
    &&& (v.phase == Phase::Waiting || v.phase == Phase::Reporting || v.phase == Phase::Done
        ==> (v.duration_ms is Some <==> v.killed))
}

/// The state that event `e` leads to from `v`, or `None` when the event
/// is not the one the last action asked for.
pub open spec fn after_event(v: LifecycleView, e: Event) -> Option<LifecycleView> {
    match (v.phase, e) {
        (Phase::Spawning, Event::Spawned(pid)) => {
            let pids = v.pids.push(pid);
            Some(
                LifecycleView {
                    pids: pids,
                    phase: if pids.len() == v.replicas {
                        Phase::Announcing
                    } else {
                        Phase::Spawning
                    },
                    ..v
                },
            )
        },
        (Phase::Announcing, Event::Announced) => Some(
            LifecycleView {
                phase: if v.duration_ms is Some {
                    Phase::Sleeping
                } else {
                    collect_phase(v.replicas)
                },
                ..v
            },
        ),
        (Phase::Sleeping, Event::Slept) => Some(LifecycleView { phase: Phase::Killing, ..v }),
        (Phase::Killing, Event::Killed) => Some(
            LifecycleView { killed: true, phase: collect_phase(v.replicas), ..v },
        ),
        (Phase::Waiting, Event::Exited(code)) => {
            let codes = v.exit_codes.push(code);
            Some(
                LifecycleView {
                    exit_codes: codes,
                    phase: if codes.len() == v.replicas {
                        Phase::Reporting
                    } else {
                        Phase::Waiting
                    },
                    ..v
                },
            )
        },
        (Phase::Reporting, Event::Reported) => Some(LifecycleView { phase: Phase::Done, ..v }),
        _ => None,
    }
}

/// The action that state `v` asks for.
pub open spec fn action_matches(v: LifecycleView, a: Action) -> bool {
    match v.phase {
        Phase::Spawning => a == Action::Spawn(v.pids.len() as usize),
        Phase::Announcing => a matches Action::Announce(p) && p@ == v.pids,
        Phase::Sleeping => a == Action::Sleep(v.duration_ms.unwrap()),
        Phase::Killing => a == Action::KillAll,
        Phase::Waiting => a == Action::Wait(v.exit_codes.len() as usize),
        Phase::Reporting => a matches Action::Report(c) && c@ == v.exit_codes,
        Phase::Done => a == Action::Complete,
    }
}

impl Lifecycle {
    /// The lifecycle is in a consistent state.
    pub open spec fn wf(&self) -> bool {
        lifecycle_wf(self@)
    }

    /// The lifecycle of `replicas` processes, killed after `duration_ms`
    /// when that is set.
    pub fn new(replicas: usize, duration_ms: Option<u64>) -> (r: Lifecycle)
        ensures
            r.wf(),
            r@ == (LifecycleView {
                replicas: replicas as nat,
                duration_ms,
                pids: Seq::empty(),
                exit_codes: Seq::empty(),
                killed: false,
                phase: if replicas == 0 {
                    Phase::Announcing
                } else {
                    Phase::Spawning
                },
            }),
    {
        Lifecycle {
            replicas,
            duration_ms,
            pids: Vec::new(),
            exit_codes: Vec::new(),
            killed: false,
            phase: if replicas == 0 {
                Phase::Announcing
            } else {
                Phase::Spawning
            },
        }
    }

    /// What to do next. Process ids are announced once all replicas
    /// started, one per replica; exit codes are reported once all
    /// replicas exited, one per replica in spawn order; a step with an
    /// enforced duration has every replica killed before the first wait.
    pub fn next_action(&self) -> (r: Action)
        requires
            self.wf(),
        ensures
            action_matches(self@, r),
            lifecycle_wf(self@),
            r matches Action::Announce(p) ==> p@.len() == self@.replicas,
            r matches Action::Report(c) ==> c@.len() == self@.replicas && c@.len()
                == self@.pids.len(),
            r matches Action::Wait(i) ==> i < self@.replicas && (self@.duration_ms is Some
                ==> self@.killed),
    {
        match self.phase {
            Phase::Spawning => Action::Spawn(self.pids.len()),
            Phase::Announcing => Action::Announce(copy_values(&self.pids)),
            Phase::Sleeping => match self.duration_ms {
                Some(d) => Action::Sleep(d),
                None => Action::Complete,
            },
            Phase::Killing => Action::KillAll,
            Phase::Waiting => Action::Wait(self.exit_codes.len()),
            Phase::Reporting => Action::Report(copy_values(&self.exit_codes)),
            Phase::Done => Action::Complete,
        }
    }

    /// Takes in what happened; an event other than the one the last action
    /// asked for is refused and changes nothing.
    pub fn observe(&mut self, event: Event) -> (accepted: bool)
        requires
            old(self).wf(),
        ensures
            match after_event(old(self)@, event) {
                Some(v) => accepted && final(self)@ == v,
                None => !accepted && final(self)@ == old(self)@,
            },
            final(self).wf(),
    {
        let accepted = match (self.phase, event) {
            (Phase::Spawning, Event::Spawned(pid)) => {
                self.pids.push(pid);
                if self.pids.len() == self.replicas {
                    self.phase = Phase::Announcing;
                }
                true
            },
            (Phase::Announcing, Event::Announced) => {
                self.phase = if self.duration_ms.is_some() {
                    Phase::Sleeping
                } else if self.replicas == 0 {
                    Phase::Reporting
                } else {
                    Phase::Waiting
                };
                true
            },
            (Phase::Sleeping, Event::Slept) => {
                self.phase = Phase::Killing;
                true
            },
            (Phase::Killing, Event::Killed) => {
                self.killed = true;
                self.phase = if self.replicas == 0 {
                    Phase::Reporting
                } else {
                    Phase::Waiting
                };
                true
            },
            (Phase::Waiting, Event::Exited(code)) => {
                self.exit_codes.push(code);
                if self.exit_codes.len() == self.replicas {
                    self.phase = Phase::Reporting;
                }
                true
            },
            (Phase::Reporting, Event::Reported) => {
                self.phase = Phase::Done;
                true
            },
            _ => false,
        };
        accepted
    }
}

/// The state a fresh lifecycle starts in.
pub open spec fn initial(replicas: nat, duration_ms: Option<u64>) -> LifecycleView {
    LifecycleView {
        replicas,
        duration_ms,
        pids: Seq::empty(),
        exit_codes: Seq::empty(),
        killed: false,
        phase: if replicas == 0 {
            Phase::Announcing
        } else {
            Phase::Spawning
        },
    }
}

/// The state after taking in `events` one by one from `v`, or `None` if
/// one of them is refused.
pub open spec fn replay(v: LifecycleView, events: Seq<Event>) -> Option<LifecycleView>
    decreases events.len(),
{
    if events.len() == 0 {
        Some(v)
    } else {
        match replay(v, events.drop_last()) {
            Some(w) => after_event(w, events.last()),
            None => None,
        }
    }
}

/// The process ids reported by the `Spawned` events, in order.
pub open spec fn spawned_pids(events: Seq<Event>) -> Seq<u32>
    decreases events.len(),
{
    if events.len() == 0 {
        Seq::empty()
    } else {
        match events.last() {
            Event::Spawned(p) => spawned_pids(events.drop_last()).push(p),
            _ => spawned_pids(events.drop_last()),
        }
    }
}

/// The exit codes reported by the `Exited` events, in order.
pub open spec fn exited_codes(events: Seq<Event>) -> Seq<i32>
    decreases events.len(),
{
    if events.len() == 0 {
        Seq::empty()
    } else {
        match events.last() {
            Event::Exited(c) => exited_codes(events.drop_last()).push(c),
            _ => exited_codes(events.drop_last()),
        }
    }
}

/// Whether `events` holds a `Killed` event.
pub open spec fn has_kill(events: Seq<Event>) -> bool {
    exists|i: int| 0 <= i < events.len() && events[i] == Event::Killed
}

proof fn lemma_replay_tracks(replicas: nat, duration_ms: Option<u64>, events: Seq<Event>)
    requires
        replay(initial(replicas, duration_ms), events) is Some,
    ensures
        ({
            let w = replay(initial(replicas, duration_ms), events).unwrap();
            &&& lifecycle_wf(w)
            &&& w.replicas == replicas
            &&& w.duration_ms == duration_ms
            &&& w.pids == spawned_pids(events)
            &&& w.exit_codes == exited_codes(events)
            &&& (w.killed ==> has_kill(events))
        }),
    decreases events.len(),
{
    if events.len() > 0 {
        let prefix = events.drop_last();
        lemma_replay_tracks(replicas, duration_ms, prefix);
        if has_kill(prefix) {
            let i = choose|i: int| 0 <= i < prefix.len() && prefix[i] == Event::Killed;
            assert(events[i] == Event::Killed);
        }
        if events.last() == Event::Killed {
            assert(events[events.len() - 1] == Event::Killed);
        }
    }
}

/// Whatever events drive a lifecycle of `replicas` processes to its end,
/// exactly `replicas` processes were spawned and exactly as many exit
/// codes collected: the published ids are those of the spawns and the
/// published codes those of the exits, each in the order reported.
pub proof fn lemma_replicas_spawned_and_collected(
    replicas: nat,
    duration_ms: Option<u64>,
    events: Seq<Event>,
)
    requires
        replay(initial(replicas, duration_ms), events) matches Some(w) && w.phase == Phase::Done,
    ensures
        spawned_pids(events).len() == replicas,
        exited_codes(events).len() == replicas,
        replay(initial(replicas, duration_ms), events).unwrap().pids == spawned_pids(events),
        replay(initial(replicas, duration_ms), events).unwrap().exit_codes == exited_codes(events),
{
    lemma_replay_tracks(replicas, duration_ms, events);
}

/// With an enforced duration, no exit code is collected before every
/// replica was killed: any accepted run of events that reports an exit
/// also holds the kill.
pub proof fn lemma_capped_replicas_killed_before_wait(
    replicas: nat,
    duration: u64,
    events: Seq<Event>,
)
    requires
        replay(initial(replicas, Some(duration)), events) is Some,
        exited_codes(events).len() > 0,
    ensures
        has_kill(events),
        replay(initial(replicas, Some(duration)), events).unwrap().killed,
{
    lemma_replay_tracks(replicas, Some(duration), events);
}

} // verus!
