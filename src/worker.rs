//! The decisions of a step's worker before it launches: whether its
//! dependencies let it go, and the laws that make waiting on them sound.
use vstd::prelude::*;
use crate::config::{ConfigError, Dependency, Step};
use crate::state::{codes_allowed, fact_of, satisfied, with_finished, with_started, Fact, RunState};

verus! {

/// What a worker does next about its dependencies.
#[derive(Debug, Clone, Copy, PartialEq, Eq, Structural)]
pub enum Readiness {
    /// Every dependency holds: take a snapshot, template, launch.
    Ready,
    /// The dependency at this position does not hold yet: wait for a
    /// publication and ask again.
    Blocked(usize),
    /// The step cannot run at all.
    Refused(ConfigError),
}

/// Dependency `i` of `deps` holds in table `m`.
pub open spec fn holds_at(deps: Seq<Dependency>, m: Map<Seq<char>, Fact>, i: int) -> bool {
    satisfied(deps[i], fact_of(m, deps[i].id@))
}

/// Whether a step may launch given the facts published so far: a step
/// with dependencies but no id is refused; otherwise it is blocked on its
/// first dependency, in declaration order, that does not hold yet.
pub fn step_readiness(step: &Step, state: &RunState) -> (r: Readiness)
    ensures
        match step.depends_on {
            None => r == Readiness::Ready,
            Some(deps) => if step.id is None {
                r == Readiness::Refused(ConfigError::MissingStepId)
            } else {
                match r {
                    Readiness::Ready => forall|i: int|
                        0 <= i < deps@.len() ==> holds_at(deps@, state@, i),
                    Readiness::Blocked(i) => i < deps@.len() && !holds_at(deps@, state@, i as int)
                        && forall|j: int| 0 <= j < i ==> holds_at(deps@, state@, j),
                    Readiness::Refused(_) => false,
                }
            },
        },
{
    let deps = match &step.depends_on {
        None => return Readiness::Ready,
        Some(deps) => deps,
    };
    if step.id.is_none() {
        return Readiness::Refused(ConfigError::MissingStepId);
    }
    let n = deps.len();
    let mut i: usize = 0;
    while i < n
        invariant
            step.depends_on == Some(*deps),
            step.id is Some,
            n == deps@.len(),
            i <= n,
            forall|j: int| 0 <= j < i ==> holds_at(deps@, state@, j),
        decreases n - i,
    {
        if !state.is_satisfied(&deps[i]) {
            return Readiness::Blocked(i);
        }
        i += 1;
    }
    Readiness::Ready
}

/// A `started` dependency (the default) holds only after its step published
/// that it started, with its process ids: never in the empty table, neither
/// made true nor false by any finish publication, and true once its step
/// published its start, whose process ids are then the ones seen.
pub proof fn lemma_started_dependency_waits_for_start(
    dep: Dependency,
    m: Map<Seq<char>, Fact>,
    id: Seq<char>,
    pids: Seq<u32>,
    codes: Seq<i32>,
)
    requires
        dep.when is None || dep.when.unwrap()@ == "started"@,
    ensures
        !satisfied(dep, fact_of(Map::empty(), dep.id@)),
        satisfied(dep, fact_of(with_finished(m, id, codes), dep.id@)) == satisfied(
            dep,
            fact_of(m, dep.id@),
        ),
        satisfied(dep, fact_of(m, dep.id@)) ==> m[dep.id@].started,
        satisfied(dep, fact_of(with_started(m, dep.id@, pids), dep.id@)),
        with_started(m, dep.id@, pids)[dep.id@].pids == pids,
{
}

/// An `exited` dependency holds of a finished step exactly when every exit
/// code of its replicas is in the allow-list (when there is one); and once
/// its step finished with a code outside the list, no later start
/// publication, nor finish publication of another step, makes it hold.
pub proof fn lemma_exited_dependency_gates_on_codes(
    dep: Dependency,
    m: Map<Seq<char>, Fact>,
    other: Seq<char>,
    pids: Seq<u32>,
    codes: Seq<i32>,
)
    requires
        dep.when is Some && dep.when.unwrap()@ == "exited"@,
        dep.exit_codes is Some,
        m.contains_key(dep.id@),
        m[dep.id@].finished,
        other != dep.id@,
    ensures
        satisfied(dep, fact_of(m, dep.id@)) <==> forall|i: int|
            0 <= i < m[dep.id@].exit_codes.len() ==> dep.exit_codes.unwrap()@.contains(
                #[trigger] m[dep.id@].exit_codes[i],
            ),
        !satisfied(dep, fact_of(m, dep.id@)) ==> !satisfied(
            dep,
            fact_of(with_started(m, other, pids), dep.id@),
        ) && !satisfied(dep, fact_of(with_started(m, dep.id@, pids), dep.id@)) && !satisfied(
            dep,
            fact_of(with_finished(m, other, codes), dep.id@),
        ),
{
    reveal_strlit("started");
    reveal_strlit("exited");
    assert("exited"@.len() == 6 && "started"@.len() == 7);
    assert(dep.when.unwrap()@ != "started"@);
    let f = m[dep.id@];
    assert(fact_of(m, dep.id@) == Some(f));
    assert(satisfied(dep, Some(f)) == codes_allowed(f.exit_codes, dep.exit_codes));
}

/// Once a dependency holds, it keeps holding after any start publication
/// and after the finish publication of any other step; so waiting on the
/// dependencies one after another sees all of them hold together.
pub proof fn lemma_satisfaction_persists(
    dep: Dependency,
    m: Map<Seq<char>, Fact>,
    id: Seq<char>,
    pids: Seq<u32>,
    codes: Seq<i32>,
)
    requires
        satisfied(dep, fact_of(m, dep.id@)),
    ensures
        satisfied(dep, fact_of(with_started(m, id, pids), dep.id@)),
        id != dep.id@ ==> satisfied(dep, fact_of(with_finished(m, id, codes), dep.id@)),
{
}

} // verus!
