//! The run-scoped table of lifecycle facts that steps publish and wait on.
use vstd::prelude::*;
use crate::config::Dependency;
use crate::text::same_text;

verus! {

/// What is known of one step during a run.
pub struct Fact {
    pub started: bool,
    pub finished: bool,
    pub pids: Seq<u32>,
    pub exit_codes: Seq<i32>,
}

/// The fact of a step that nothing was published for yet.
pub open spec fn blank_fact() -> Fact {
    Fact { started: false, finished: false, pids: Seq::empty(), exit_codes: Seq::empty() }
}

/// The value of the last entry of `log` under `id`, if any.
pub open spec fn latest<V>(log: Seq<(Seq<char>, V)>, id: Seq<char>) -> Option<V>
    decreases log.len(),
{
    if log.len() == 0 {
        None
    } else if log.last().0 == id {
        Some(log.last().1)
    } else {
        latest(log.drop_last(), id)
    }
}

proof fn lemma_latest_none<V>(log: Seq<(Seq<char>, V)>, id: Seq<char>)
    requires
        forall|j: int| 0 <= j < log.len() ==> log[j].0 != id,
    ensures
        latest(log, id) is None,
    decreases log.len(),
{
    if log.len() > 0 {
        lemma_latest_none(log.drop_last(), id);
    }
}

proof fn lemma_latest_at<V>(log: Seq<(Seq<char>, V)>, id: Seq<char>, i: int)
    requires
        0 <= i < log.len(),
        log[i].0 == id,
        forall|j: int| i < j < log.len() ==> log[j].0 != id,
    ensures
        latest(log, id) == Some(log[i].1),
    decreases log.len(),
{
    if i < log.len() - 1 {
        lemma_latest_at(log.drop_last(), id, i);
    }
}

proof fn lemma_latest_append<V>(a: Seq<(Seq<char>, V)>, b: Seq<(Seq<char>, V)>, id: Seq<char>)
    ensures
        latest(a + b, id) == match latest(b, id) {
            Some(v) => Some(v),
            None => latest(a, id),
        },
    decreases b.len(),
{
    if b.len() == 0 {
        assert(a + b =~= a);
    } else {
        assert((a + b).drop_last() =~= a + b.drop_last());
        lemma_latest_append(a, b.drop_last(), id);
    }
}

proof fn lemma_latest_push<V>(log: Seq<(Seq<char>, V)>, key: Seq<char>, v: V, id: Seq<char>)
    ensures
        latest(log + seq![(key, v)], id) == if id == key {
            Some(v)
        } else {
            latest(log, id)
        },
{
    assert((log + seq![(key, v)]).drop_last() =~= log);
}

/// The position of the last entry of `log` under `id`.
fn find_latest<T>(log: &Vec<(String, T)>, id: &str) -> (r: Option<usize>)
    ensures
        match r {
            Some(i) => i < log@.len() && log@[i as int].0@ == id@ && forall|j: int|
                i < j < log@.len() ==> log@[j].0@ != id@,
            None => forall|j: int| 0 <= j < log@.len() ==> log@[j].0@ != id@,
        },
{
    let mut i: usize = log.len();
    while i > 0
        invariant
            i <= log@.len(),
            forall|j: int| i <= j < log@.len() ==> log@[j].0@ != id@,
        decreases i,
    {
        i -= 1;
        if same_text(log[i].0.as_str(), id) {
            return Some(i);
        }
    }
    None
}

/// Published process-id lists, as seen by lookups.
pub open spec fn pid_log(log: Seq<(String, Vec<u32>)>) -> Seq<(Seq<char>, Seq<u32>)> {
    log.map_values(|e: (String, Vec<u32>)| (e.0@, e.1@))
}

/// Published exit-code lists, as seen by lookups.
pub open spec fn code_log(log: Seq<(String, Vec<i32>)>) -> Seq<(Seq<char>, Seq<i32>)> {
    log.map_values(|e: (String, Vec<i32>)| (e.0@, e.1@))
}

/// Copies a vector of plain values.
pub fn copy_values<T: Copy>(v: &Vec<T>) -> (r: Vec<T>)
    ensures
        r@ == v@,
{
    let mut out: Vec<T> = Vec::new();
    let n = v.len();
    let mut i: usize = 0;
    while i < n
        invariant
            n == v@.len(),
            i <= n,
            out@ == v@.take(i as int),
        decreases n - i,
    {
        out.push(v[i]);
        i += 1;
        assert(out@ =~= v@.take(i as int));
    }
    assert(v@.take(n as int) =~= v@);
    out
}

/// The lifecycle facts of one step, as an executable value.
#[derive(Debug)]
pub struct StepRecord {
    pub started: bool,
    pub finished: bool,
    pub pids: Vec<u32>,
    pub exit_codes: Vec<i32>,
}

impl View for StepRecord {
    type V = Fact;

    open spec fn view(&self) -> Fact {
        Fact {
            started: self.started,
            finished: self.finished,
            pids: self.pids@,
            exit_codes: self.exit_codes@,
        }
    }
}

/// The table of facts that the steps of one run publish.
///
/// Each publication is appended to a log, and a lookup takes the last
/// publication for the step; so the table only ever grows.
pub struct RunState {
    started: Vec<(String, Vec<u32>)>,
    finished: Vec<(String, Vec<i32>)>,
}

/// A snapshot of the process ids published so far, by step id.
pub struct PidTable {
    entries: Vec<(String, Vec<u32>)>,
}

impl View for PidTable {
    type V = Map<Seq<char>, Seq<u32>>;

    closed spec fn view(&self) -> Map<Seq<char>, Seq<u32>> {
        let log = pid_log(self.entries@);
        Map::new(|k: Seq<char>| latest(log, k) is Some, |k: Seq<char>| latest(log, k).unwrap())
    }
}

impl PidTable {
    /// A table with no entries.
    pub fn new() -> (r: PidTable)
        ensures
            r@ == Map::<Seq<char>, Seq<u32>>::empty(),
    {
        let r = PidTable { entries: Vec::new() };
        assert(r@ =~= Map::<Seq<char>, Seq<u32>>::empty());
        r
    }

    /// Records `pids` under `id`, replacing what was there.
    pub fn insert(&mut self, id: &str, pids: &Vec<u32>)
        ensures
            final(self)@ == old(self)@.insert(id@, pids@),
    {
        let ghost before = pid_log(self.entries@);
        self.entries.push((id.to_owned(), copy_values(pids)));
        proof {
            let after = pid_log(self.entries@);
            assert(after =~= before + seq![(id@, pids@)]);
            assert forall|k: Seq<char>| latest(after, k) == if k == id@ {
                Some(pids@)
            } else {
                latest(before, k)
            } by {
                lemma_latest_push(before, id@, pids@, k);
            }
            assert(final(self)@ =~= old(self)@.insert(id@, pids@));
        }
    }

    /// The process ids recorded under `id`.
    pub fn get(&self, id: &str) -> (r: Option<&Vec<u32>>)
        ensures
            match r {
                Some(p) => self@.contains_key(id@) && self@[id@] == p@,
                None => !self@.contains_key(id@),
            },
    {
        match find_latest(&self.entries, id) {
            Some(i) => {
                proof {
                    lemma_latest_at(pid_log(self.entries@), id@, i as int);
                }
                Some(&self.entries[i].1)
            },
            None => {
                proof {
                    lemma_latest_none(pid_log(self.entries@), id@);
                }
                None
            },
        }
    }
}

/// The fact for `id` that the two logs give.
pub open spec fn fact_from(
    started: Seq<(Seq<char>, Seq<u32>)>,
    finished: Seq<(Seq<char>, Seq<i32>)>,
    id: Seq<char>,
) -> Fact {
    Fact {
        started: latest(started, id) is Some,
        finished: latest(finished, id) is Some,
        pids: match latest(started, id) {
            Some(p) => p,
            None => Seq::empty(),
        },
        exit_codes: match latest(finished, id) {
            Some(c) => c,
            None => Seq::empty(),
        },
    }
}

impl View for RunState {
    type V = Map<Seq<char>, Fact>;

    closed spec fn view(&self) -> Map<Seq<char>, Fact> {
        let s = pid_log(self.started@);
        let f = code_log(self.finished@);
        Map::new(
            |k: Seq<char>| latest(s, k) is Some || latest(f, k) is Some,
            |k: Seq<char>| fact_from(s, f, k),
        )
    }
}

/// The fact of `id` in `m`, or a blank one when there is none yet.
pub open spec fn fact_or_blank(m: Map<Seq<char>, Fact>, id: Seq<char>) -> Fact {
    if m.contains_key(id) {
        m[id]
    } else {
        blank_fact()
    }
}

/// The fact of `id` in `m`, if any was published.
pub open spec fn fact_of(m: Map<Seq<char>, Fact>, id: Seq<char>) -> Option<Fact> {
    if m.contains_key(id) {
        Some(m[id])
    } else {
        None
    }
}

/// The table after `id` published that it started with `pids`.
pub open spec fn with_started(m: Map<Seq<char>, Fact>, id: Seq<char>, pids: Seq<u32>) -> Map<
    Seq<char>,
    Fact,
> {
    let old_fact = fact_or_blank(m, id);
    m.insert(
        id,
        Fact {
            started: true,
            finished: old_fact.finished,
            pids: pids,
            exit_codes: old_fact.exit_codes,
        },
    )
}

/// The table after `id` published that it finished with `codes`.
pub open spec fn with_finished(m: Map<Seq<char>, Fact>, id: Seq<char>, codes: Seq<i32>) -> Map<
    Seq<char>,
    Fact,
> {
    let old_fact = fact_or_blank(m, id);
    m.insert(
        id,
        Fact { started: old_fact.started, finished: true, pids: old_fact.pids, exit_codes: codes },
    )
}

/// Every code in `codes` is in the allow-list, when there is one.
pub open spec fn codes_allowed(codes: Seq<i32>, allowed: Option<Vec<i32>>) -> bool {
    match allowed {
        Some(a) => forall|i: int| 0 <= i < codes.len() ==> a@.contains(#[trigger] codes[i]),
        None => true,
    }
}

/// Whether `dep` holds of what is known of the step it names.
pub open spec fn satisfied(dep: Dependency, fact: Option<Fact>) -> bool {
    match fact {
        None => false,
        Some(f) => if dep.when is None || dep.when.unwrap()@ == "started"@ {
            f.started
        } else if dep.when.unwrap()@ == "exited"@ {
            f.finished && codes_allowed(f.exit_codes, dep.exit_codes)
        } else {
            false
        },
    }
}

fn contains_code(allowed: &Vec<i32>, code: i32) -> (r: bool)
    ensures
        r == allowed@.contains(code),
{
    let n = allowed.len();
    let mut i: usize = 0;
    while i < n
        invariant
            n == allowed@.len(),
            i <= n,
            forall|j: int| 0 <= j < i ==> allowed@[j] != code,
        decreases n - i,
    {
        if allowed[i] == code {
            return true;
        }
        i += 1;
    }
    false
}

fn all_codes_allowed(codes: &Vec<i32>, allowed: &Option<Vec<i32>>) -> (r: bool)
    ensures
        r == codes_allowed(codes@, *allowed),
{
    match allowed {
        None => true,
        Some(a) => {
            let n = codes.len();
            let mut i: usize = 0;
            while i < n
                invariant
                    n == codes@.len(),
                    i <= n,
                    *allowed == Some(*a),
                    forall|j: int| 0 <= j < i ==> a@.contains(#[trigger] codes@[j]),
                decreases n - i,
            {
                if !contains_code(a, codes[i]) {
                    assert(!a@.contains(codes@[i as int]));
                    return false;
                }
                i += 1;
            }
            true
        },
    }
}

/// Whether a dependency holds of the record of the step it names: a
/// `started` dependency (the default) once that step started; an `exited`
/// one once it finished with every exit code in the allow-list, if any.
pub fn dependency_satisfied(dep: &Dependency, record: Option<&StepRecord>) -> (r: bool)
    ensures
        r == satisfied(
            *dep,
            match record {
                Some(rec) => Some(rec@),
                None => None,
            },
        ),
{
    let rec = match record {
        Some(rec) => rec,
        None => return false,
    };
    match &dep.when {
        None => rec.started,
        Some(when) => {
            if same_text(when.as_str(), "started") {
                rec.started
            } else if same_text(when.as_str(), "exited") {
                rec.finished && all_codes_allowed(&rec.exit_codes, &dep.exit_codes)
            } else {
                false
            }
        },
    }
}

impl RunState {
    /// A table where no step has published anything.
    pub fn new() -> (r: RunState)
        ensures
            r@ == Map::<Seq<char>, Fact>::empty(),
    {
        let r = RunState { started: Vec::new(), finished: Vec::new() };
        assert(r@ =~= Map::<Seq<char>, Fact>::empty());
        r
    }

    /// Publishes that step `id` started, with the process ids of its replicas.
    pub fn update_started(&mut self, id: &str, pids: Vec<u32>)
        ensures
            final(self)@ == with_started(old(self)@, id@, pids@),
    {
        let ghost s0 = pid_log(self.started@);
        let ghost f = code_log(self.finished@);
        let ghost p = pids@;
        self.started.push((id.to_owned(), pids));
        proof {
            let s1 = pid_log(self.started@);
            assert(s1 =~= s0 + seq![(id@, p)]);
            assert forall|k: Seq<char>| latest(s1, k) == if k == id@ {
                Some(p)
            } else {
                latest(s0, k)
            } by {
                lemma_latest_push(s0, id@, p, k);
            }
            assert(final(self)@ =~= with_started(old(self)@, id@, p));
        }
    }

    /// Publishes that step `id` finished, with the exit codes of its replicas.
    pub fn update_finished(&mut self, id: &str, exit_codes: Vec<i32>)
        ensures
            final(self)@ == with_finished(old(self)@, id@, exit_codes@),
    {
        let ghost f0 = code_log(self.finished@);
        let ghost c = exit_codes@;
        self.finished.push((id.to_owned(), exit_codes));
        proof {
            let f1 = code_log(self.finished@);
            assert(f1 =~= f0 + seq![(id@, c)]);
            assert forall|k: Seq<char>| latest(f1, k) == if k == id@ {
                Some(c)
            } else {
                latest(f0, k)
            } by {
                lemma_latest_push(f0, id@, c, k);
            }
            assert(final(self)@ =~= with_finished(old(self)@, id@, c));
        }
    }

    /// A copy of the record of step `id`, if it published anything.
    pub fn record(&self, id: &str) -> (r: Option<StepRecord>)
        ensures
            match r {
                Some(rec) => self@.contains_key(id@) && rec@ == self@[id@],
                None => !self@.contains_key(id@),
            },
    {
        let s = find_latest(&self.started, id);
        let f = find_latest(&self.finished, id);
        proof {
            match s {
                Some(i) => lemma_latest_at(pid_log(self.started@), id@, i as int),
                None => lemma_latest_none(pid_log(self.started@), id@),
            }
            match f {
                Some(i) => lemma_latest_at(code_log(self.finished@), id@, i as int),
                None => lemma_latest_none(code_log(self.finished@), id@),
            }
        }
        if s.is_none() && f.is_none() {
            return None;
        }
        let pids = match s {
            Some(i) => copy_values(&self.started[i].1),
            None => Vec::new(),
        };
        let exit_codes = match f {
            Some(i) => copy_values(&self.finished[i].1),
            None => Vec::new(),
        };
        let rec = StepRecord { started: s.is_some(), finished: f.is_some(), pids, exit_codes };
        assert(rec@ =~= self@[id@]);
        Some(rec)
    }

    /// The process ids that each step published so far; a step that only
    /// published that it finished has none.
    pub fn snapshot_pids(&self) -> (r: PidTable)
        ensures
            r@ == self@.map_values(|f: Fact| f.pids),
    {
        let ghost s = pid_log(self.started@);
        let ghost f = code_log(self.finished@);
        let mut table = PidTable::new();
        let none: Vec<u32> = Vec::new();
        let n = self.finished.len();
        let mut i: usize = 0;
        while i < n
            invariant
                n == self.finished@.len(),
                f == code_log(self.finished@),
                none@ == Seq::<u32>::empty(),
                i <= n,
                table@ == Map::new(
                    |k: Seq<char>| latest(f.take(i as int), k) is Some,
                    |k: Seq<char>| Seq::<u32>::empty(),
                ),
            decreases n - i,
        {
            table.insert(self.finished[i].0.as_str(), &none);
            proof {
                assert(f.take(i + 1) =~= f.take(i as int) + seq![f[i as int]]);
                assert forall|k: Seq<char>|
                    latest(f.take(i + 1), k) == if k == f[i as int].0 {
                        Some(f[i as int].1)
                    } else {
                        latest(f.take(i as int), k)
                    } by {
                    lemma_latest_push(f.take(i as int), f[i as int].0, f[i as int].1, k);
                }
            }
            i += 1;
            assert(table@ =~= Map::new(
                |k: Seq<char>| latest(f.take(i as int), k) is Some,
                |k: Seq<char>| Seq::<u32>::empty(),
            ));
        }
        assert(f.take(n as int) =~= f);
        let m = self.started.len();
        let mut j: usize = 0;
        while j < m
            invariant
                m == self.started@.len(),
                s == pid_log(self.started@),
                j <= m,
                table@ == Map::new(
                    |k: Seq<char>| latest(s.take(j as int), k) is Some || latest(f, k) is Some,
                    |k: Seq<char>|
                        match latest(s.take(j as int), k) {
                            Some(p) => p,
                            None => Seq::<u32>::empty(),
                        },
                ),
            decreases m - j,
        {
            table.insert(self.started[j].0.as_str(), &self.started[j].1);
            proof {
                assert(s.take(j + 1) =~= s.take(j as int) + seq![s[j as int]]);
                assert forall|k: Seq<char>|
                    latest(s.take(j + 1), k) == if k == s[j as int].0 {
                        Some(s[j as int].1)
                    } else {
                        latest(s.take(j as int), k)
                    } by {
                    lemma_latest_push(s.take(j as int), s[j as int].0, s[j as int].1, k);
                }
            }
            j += 1;
            assert(table@ =~= Map::new(
                |k: Seq<char>| latest(s.take(j as int), k) is Some || latest(f, k) is Some,
                |k: Seq<char>|
                    match latest(s.take(j as int), k) {
                        Some(p) => p,
                        None => Seq::<u32>::empty(),
                    },
            ));
        }
        assert(s.take(m as int) =~= s);
        assert(table@ =~= self@.map_values(|f: Fact| f.pids));
        table
    }

    /// Whether `dep` holds of what its step published so far.
    pub fn is_satisfied(&self, dep: &Dependency) -> (r: bool)
        ensures
            r == satisfied(*dep, fact_of(self@, dep.id@)),
    {
        let rec = self.record(dep.id.as_str());
        match &rec {
            Some(r) => dependency_satisfied(dep, Some(r)),
            None => dependency_satisfied(dep, None),
        }
    }
}

} // verus!
