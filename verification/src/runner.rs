//! Scenario playback bookkeeping: which run is current, how far it got,
//! and the scenarios installed for this session.
//!
//! Each run gets a generation number. Progress reported under any other
//! generation is ignored, so a stopped or superseded run cannot overwrite
//! the status of the current one.

use vstd::prelude::*;

use crate::ieee::Real;
use crate::scenario::{ScenarioSpec, ScenarioStep};
use crate::text::{bytes_of, lex_less, str_less};

verus! {

/// High-level runner state.
#[derive(Debug, Clone, Copy, PartialEq, Eq, Structural)]
pub enum ScenarioState {
    /// Nothing loaded.
    Idle,
    /// Steps are being applied.
    Running,
    /// All steps applied.
    Completed,
    /// Cancelled.
    Stopped,
}

impl ScenarioState {
    /// Wire string.
    pub open spec fn wire_name(self) -> Seq<char> {
        match self {
            ScenarioState::Idle => "idle"@,
            ScenarioState::Running => "running"@,
            ScenarioState::Completed => "completed"@,
            ScenarioState::Stopped => "stopped"@,
        }
    }

    /// Wire string used by the HTTP API.
    pub fn as_str(self) -> (s: &'static str)
        ensures
            s@ == self.wire_name(),
    {
        match self {
            ScenarioState::Idle => "idle",
            ScenarioState::Running => "running",
            ScenarioState::Completed => "completed",
            ScenarioState::Stopped => "stopped",
        }
    }
}

/// Snapshot of runner progress.
#[derive(Debug, PartialEq)]
pub struct ScenarioStatus {
    /// State.
    pub state: ScenarioState,
    /// Id of the scenario last started.
    pub scenario_name: Option<String>,
    /// 1-based index of the last executed step.
    pub step_index: usize,
    /// Total steps.
    pub total_steps: usize,
    /// Elapsed simulation seconds.
    pub elapsed_s: Real,
}

impl ScenarioStatus {
    /// A copy of the status.
    pub fn copy(&self) -> (r: ScenarioStatus)
        ensures
            r == *self,
    {
        ScenarioStatus {
            state: self.state,
            scenario_name: match &self.scenario_name {
                Some(n) => Some(n.clone()),
                None => None,
            },
            step_index: self.step_index,
            total_steps: self.total_steps,
            elapsed_s: self.elapsed_s,
        }
    }
}

/// Status of a runner that has never run anything.
pub open spec fn idle_status() -> ScenarioStatus {
    ScenarioStatus {
        state: ScenarioState::Idle,
        scenario_name: None,
        step_index: 0,
        total_steps: 0,
        elapsed_s: Real::zero_spec(),
    }
}

/// The generation after `g` (wrapping after the last one).
pub open spec fn next_generation(g: u64) -> u64 {
    if g == u64::MAX {
        0
    } else {
        (g + 1) as u64
    }
}

/// Status at the start of a run of `s`, named by its run id.
pub open spec fn started(s: ScenarioSpec, name: String) -> ScenarioStatus {
    ScenarioStatus {
        state: ScenarioState::Running,
        scenario_name: Some(name),
        step_index: 0,
        total_steps: s.steps.len(),
        elapsed_s: Real::zero_spec(),
    }
}

/// Status after run `g` reports step `index` at `elapsed`, while run
/// `current` is the current one.
pub open spec fn noted(st: ScenarioStatus, current: u64, g: u64, index: usize, elapsed: Real) -> ScenarioStatus {
    if current != g {
        st
    } else {
        ScenarioStatus {
            state: st.state,
            scenario_name: st.scenario_name,
            step_index: index,
            total_steps: st.total_steps,
            elapsed_s: elapsed,
        }
    }
}

/// Status after run `g` reports completion at `elapsed`, while run
/// `current` is the current one.
pub open spec fn completed(st: ScenarioStatus, current: u64, g: u64, elapsed: Real) -> ScenarioStatus {
    if current != g {
        st
    } else {
        ScenarioStatus {
            state: ScenarioState::Completed,
            scenario_name: st.scenario_name,
            step_index: st.step_index,
            total_steps: st.total_steps,
            elapsed_s: elapsed,
        }
    }
}

/// Status after a stop.
pub open spec fn stopped(st: ScenarioStatus) -> ScenarioStatus {
    ScenarioStatus {
        state: ScenarioState::Stopped,
        scenario_name: st.scenario_name,
        step_index: st.step_index,
        total_steps: st.total_steps,
        elapsed_s: st.elapsed_s,
    }
}

/// Session scenarios sorted by id bytes, each id once.
pub open spec fn ids_sorted(ss: Seq<ScenarioSpec>) -> bool {
    forall|i: int, j: int|
        0 <= i < j < ss.len() ==> lex_less(bytes_of(#[trigger] ss[i].id@), bytes_of(#[trigger] ss[j].id@))
}

/// Whether some session scenario has id `id`.
pub open spec fn has_session(ss: Seq<ScenarioSpec>, id: Seq<char>) -> bool {
    exists|i: int| 0 <= i < ss.len() && #[trigger] ss[i].id@ == id
}

/// Tracks scenario progress and the session-installed scenarios. The
/// caller drives the clock and applies the steps.
#[derive(Debug)]
pub struct ScenarioRunner {
    status: ScenarioStatus,
    generation: u64,
    session: Vec<ScenarioSpec>,
}

impl ScenarioRunner {
    /// Current status.
    pub closed spec fn current(self) -> ScenarioStatus {
        self.status
    }

    /// Generation of the current run.
    pub closed spec fn generation(self) -> u64 {
        self.generation
    }

    /// Session-installed scenarios, sorted by id.
    pub closed spec fn session(self) -> Seq<ScenarioSpec> {
        self.session@
    }

    #[verifier::type_invariant]
    spec fn sorted(self) -> bool {
        ids_sorted(self.session@)
    }

    /// A runner with nothing run and nothing installed.
    pub fn new() -> (r: Self)
        ensures
            r.current() == idle_status(),
            r.generation() == 0,
            r.session().len() == 0,
    {
        ScenarioRunner {
            status: ScenarioStatus {
                state: ScenarioState::Idle,
                scenario_name: None,
                step_index: 0,
                total_steps: 0,
                elapsed_s: Real::zero(),
            },
            generation: 0,
            session: Vec::new(),
        }
    }

    /// Current status copy.
    pub fn status(&self) -> (r: ScenarioStatus)
        ensures
            r == self.current(),
    {
        self.status.copy()
    }

    /// Session-installed scenarios, sorted by id, each id once.
    pub fn session_scenarios(&self) -> (r: &Vec<ScenarioSpec>)
        ensures
            r@ == self.session(),
            ids_sorted(r@),
    {
        proof {
            use_type_invariant(self);
        }
        &self.session
    }

    /// The session copy with id `id`.
    pub fn session_scenario(&self, id: &str) -> (r: Option<&ScenarioSpec>)
        ensures
            match r {
                Some(s) => exists|i: int|
                    0 <= i < self.session().len() && self.session()[i] == *s && #[trigger] self.session()[i].id@
                        == id@,
                None => !has_session(self.session(), id@),
            },
    {
        let mut i: usize = 0;
        while i < self.session.len()
            invariant
                0 <= i <= self.session@.len(),
                forall|j: int| 0 <= j < i ==> #[trigger] self.session@[j].id@ != id@,
            decreases self.session@.len() - i,
        {
            if crate::text::str_eq(self.session[i].id.as_str(), id) {
                assert(self.session()[i as int].id@ == id@);
                return Some(&self.session[i]);
            }
            i = i + 1;
        }
        None
    }

    /// Install or replace a session copy; returns the copy it replaced.
    pub fn install_session(&mut self, spec: ScenarioSpec) -> (r: Option<ScenarioSpec>)
        ensures
            forall|s: ScenarioSpec|
                #[trigger] final(self).session().contains(s) <==> (s == spec || (old(self).session().contains(s)
                    && s.id@ != spec.id@)),
            r is Some <==> has_session(old(self).session(), spec.id@),
            r matches Some(o) ==> old(self).session().contains(o) && o.id@ == spec.id@,
            final(self).current() == old(self).current(),
            final(self).generation() == old(self).generation(),
    {
        proof {
            use_type_invariant(&*self);
        }
        let ghost before = self.session@;
        let mut p: usize = 0;
        while p < self.session.len() && str_less(self.session[p].id.as_str(), spec.id.as_str())
            invariant
                0 <= p <= self.session@.len(),
                self.session@ == before,
                ids_sorted(before),
                forall|j: int| 0 <= j < p ==> lex_less(bytes_of(#[trigger] before[j].id@), bytes_of(spec.id@)),
            decreases self.session@.len() - p,
        {
            p = p + 1;
        }
        let mut session: Vec<ScenarioSpec> = Vec::new();
        std::mem::swap(&mut session, &mut self.session);
        if p < session.len() && crate::text::str_eq(session[p].id.as_str(), spec.id.as_str()) {
            let old_copy = session.remove(p);
            proof {
                assert(session@ =~= before.remove(p as int));
            }
            session.insert(p, spec);
            proof {
                let after = session@;
                assert(after =~= before.update(p as int, spec));
                assert forall|i: int, j: int| 0 <= i < j < after.len() implies lex_less(
                    bytes_of(#[trigger] after[i].id@),
                    bytes_of(#[trigger] after[j].id@),
                ) by {
                    assert(bytes_of(after[p as int].id@) == bytes_of(before[p as int].id@));
                    if i != p && j != p {
                        assert(after[i] == before[i] && after[j] == before[j]);
                    } else if i == p {
                        assert(after[j] == before[j]);
                        assert(lex_less(bytes_of(before[p as int].id@), bytes_of(before[j].id@)));
                    } else {
                        assert(after[i] == before[i]);
                        assert(lex_less(bytes_of(before[i].id@), bytes_of(before[p as int].id@)));
                    }
                }
                assert forall|s: ScenarioSpec| #[trigger] after.contains(s) <==> (s == spec || (before.contains(s)
                    && s.id@ != spec.id@)) by {
                    if after.contains(s) && s != spec {
                        let k = choose|k: int| 0 <= k < after.len() && after[k] == s;
                        assert(k != p);
                        assert(before[k] == s);
                        if s.id@ == spec.id@ {
                            assert(before[k].id@ == before[p as int].id@);
                            if k < p {
                                assert(lex_less(bytes_of(before[k].id@), bytes_of(before[p as int].id@)));
                            } else {
                                assert(lex_less(bytes_of(before[p as int].id@), bytes_of(before[k].id@)));
                            }
                            crate::text::lemma_lex_irreflexive(bytes_of(s.id@));
                        }
                    }
                    if s == spec {
                        assert(after[p as int] == s);
                    }
                    if before.contains(s) && s.id@ != spec.id@ {
                        let k = choose|k: int| 0 <= k < before.len() && before[k] == s;
                        assert(k != p);
                        assert(after[k] == s);
                    }
                }
                assert(before.contains(old_copy) && old_copy.id@ == spec.id@) by {
                    assert(before[p as int] == old_copy);
                }
            }
            self.session = session;
            return Some(old_copy);
        }
        proof {
            if p < before.len() {
                assert(before[p as int].id@ != spec.id@);
                assert(!lex_less(bytes_of(before[p as int].id@), bytes_of(spec.id@)));
                assert(bytes_of(before[p as int].id@) != bytes_of(spec.id@)) by {
                    vstd::utf8::encode_utf8_decode_utf8(before[p as int].id@);
                    vstd::utf8::encode_utf8_decode_utf8(spec.id@);
                }
                crate::text::lemma_lex_total(bytes_of(before[p as int].id@), bytes_of(spec.id@));
            }
        }
        session.insert(p, spec);
        proof {
            let after = session@;
            assert(after =~= before.insert(p as int, spec));
            assert forall|i: int, j: int| 0 <= i < j < after.len() implies lex_less(
                bytes_of(#[trigger] after[i].id@),
                bytes_of(#[trigger] after[j].id@),
            ) by {
                if j < p {
                    assert(after[i] == before[i] && after[j] == before[j]);
                } else if j == p {
                    assert(after[i] == before[i]);
                } else if i == p {
                    assert(after[j] == before[j - 1]);
                    if j - 1 > p {
                        crate::text::lemma_lex_transitive(
                            bytes_of(spec.id@),
                            bytes_of(before[p as int].id@),
                            bytes_of(before[j - 1].id@),
                        );
                    }
                } else if i < p {
                    assert(after[i] == before[i] && after[j] == before[j - 1]);
                    if j - 1 == p as int {
                    } else {
                    }
                    assert(lex_less(bytes_of(before[i].id@), bytes_of(spec.id@)));
                    if j - 1 >= p {
                        if j - 1 == p {
                        } else {
                            crate::text::lemma_lex_transitive(
                                bytes_of(spec.id@),
                                bytes_of(before[p as int].id@),
                                bytes_of(before[j - 1].id@),
                            );
                        }
                        crate::text::lemma_lex_transitive(
                            bytes_of(before[i].id@),
                            bytes_of(spec.id@),
                            bytes_of(before[j - 1].id@),
                        );
                    }
                } else {
                    assert(after[i] == before[i - 1] && after[j] == before[j - 1]);
                }
            }
            assert(!has_session(before, spec.id@)) by {
                if has_session(before, spec.id@) {
                    let k = choose|k: int| 0 <= k < before.len() && #[trigger] before[k].id@ == spec.id@;
                    if k < p {
                        assert(lex_less(bytes_of(before[k].id@), bytes_of(spec.id@)));
                        crate::text::lemma_lex_irreflexive(bytes_of(spec.id@));
                    } else if k == p {
                    } else {
                        crate::text::lemma_lex_transitive(
                            bytes_of(spec.id@),
                            bytes_of(before[p as int].id@),
                            bytes_of(before[k].id@),
                        );
                        crate::text::lemma_lex_irreflexive(bytes_of(spec.id@));
                    }
                }
            }
            assert forall|s: ScenarioSpec| #[trigger] after.contains(s) <==> (s == spec || (before.contains(s)
                && s.id@ != spec.id@)) by {
                if after.contains(s) && s != spec {
                    let k = choose|k: int| 0 <= k < after.len() && after[k] == s;
                    if k < p {
                        assert(before[k] == s);
                    } else {
                        assert(k != p);
                        assert(before[k - 1] == s);
                    }
                }
                if s == spec {
                    assert(after[p as int] == s);
                }
                if before.contains(s) && s.id@ != spec.id@ {
                    let k = choose|k: int| 0 <= k < before.len() && before[k] == s;
                    if k < p {
                        assert(after[k] == s);
                    } else {
                        assert(after[k + 1] == s);
                    }
                }
            }
        }
        self.session = session;
        None
    }

    /// Remove the session copy with id `id`; returns whether one existed.
    pub fn remove_session(&mut self, id: &str) -> (r: bool)
        ensures
            forall|s: ScenarioSpec|
                #[trigger] final(self).session().contains(s) <==> old(self).session().contains(s) && s.id@ != id@,
            r == has_session(old(self).session(), id@),
            final(self).current() == old(self).current(),
            final(self).generation() == old(self).generation(),
    {
        proof {
            use_type_invariant(&*self);
        }
        let ghost before = self.session@;
        let mut i: usize = 0;
        while i < self.session.len()
            invariant
                0 <= i <= self.session@.len(),
                self.session@ == before,
                before == old(self).session(),
                self.status == old(self).status,
                self.generation == old(self).generation,
                ids_sorted(before),
                forall|j: int| 0 <= j < i ==> #[trigger] before[j].id@ != id@,
            decreases self.session@.len() - i,
        {
            if crate::text::str_eq(self.session[i].id.as_str(), id) {
                let mut session: Vec<ScenarioSpec> = Vec::new();
                std::mem::swap(&mut session, &mut self.session);
                let _gone = session.remove(i);
                proof {
                    let after = session@;
                    assert(after =~= before.remove(i as int));
                    assert forall|a: int, b: int| 0 <= a < b < after.len() implies lex_less(
                        bytes_of(#[trigger] after[a].id@),
                        bytes_of(#[trigger] after[b].id@),
                    ) by {
                        let a0 = if a < i { a } else { a + 1 };
                        let b0 = if b < i { b } else { b + 1 };
                        assert(after[a] == before[a0] && after[b] == before[b0]);
                    }
                    assert forall|s: ScenarioSpec| #[trigger] after.contains(s) <==> before.contains(s) && s.id@
                        != id@ by {
                        if after.contains(s) {
                            let k = choose|k: int| 0 <= k < after.len() && after[k] == s;
                            let k0 = if k < i { k } else { k + 1 };
                            assert(before[k0] == s);
                            if s.id@ == id@ {
                                assert(before[k0].id@ == before[i as int].id@);
                                if k0 < i {
                                    assert(lex_less(bytes_of(before[k0].id@), bytes_of(before[i as int].id@)));
                                } else {
                                    assert(lex_less(bytes_of(before[i as int].id@), bytes_of(before[k0].id@)));
                                }
                                crate::text::lemma_lex_irreflexive(bytes_of(s.id@));
                            }
                        }
                        if before.contains(s) && s.id@ != id@ {
                            let k = choose|k: int| 0 <= k < before.len() && before[k] == s;
                            assert(k != i);
                            if k < i {
                                assert(after[k] == s);
                            } else {
                                assert(after[k - 1] == s);
                            }
                        }
                    }
                }
                self.session = session;
                assert(before[i as int].id@ == id@);
                return true;
            }
            i = i + 1;
        }
        proof {
            assert forall|s: ScenarioSpec| #[trigger] self.session@.contains(s) <==> before.contains(s) && s.id@
                != id@ by {
                if before.contains(s) {
                    let k = choose|k: int| 0 <= k < before.len() && before[k] == s;
                    assert(before[k].id@ != id@);
                }
            }
        }
        false
    }

    /// Whether run `generation` is the current run and still running.
    pub fn is_running(&self, generation: u64) -> (b: bool)
        ensures
            b == (self.generation() == generation && self.current().state == ScenarioState::Running),
    {
        self.generation == generation && self.status.state == ScenarioState::Running
    }

    /// Begin a run of `scenario`; returns the generation the run must use.
    pub fn begin(&mut self, scenario: &ScenarioSpec) -> (g: u64)
        ensures
            g == next_generation(old(self).generation()),
            final(self).generation() == g,
            final(self).current() == started(
                *scenario,
                final(self).current().scenario_name.unwrap(),
            ),
            final(self).current().scenario_name.unwrap()@ == if scenario.id@.len() == 0 {
                scenario.name@
            } else {
                scenario.id@
            },
            final(self).session() == old(self).session(),
    {
        proof {
            use_type_invariant(&*self);
        }
        let g = self.generation.wrapping_add(1);
        self.generation = g;
        let name = crate::text::string_of(scenario.run_id());
        self.status = ScenarioStatus {
            state: ScenarioState::Running,
            scenario_name: Some(name),
            step_index: 0,
            total_steps: scenario.steps.len(),
            elapsed_s: Real::zero(),
        };
        g
    }

    /// Record a step of run `generation`; ignored unless it is the current run.
    pub fn note_step(&mut self, generation: u64, index: usize, elapsed_s: Real)
        ensures
            final(self).current() == noted(old(self).current(), old(self).generation(), generation, index, elapsed_s),
            final(self).generation() == old(self).generation(),
            final(self).session() == old(self).session(),
    {
        proof {
            use_type_invariant(&*self);
        }
        if self.generation != generation {
            return;
        }
        self.status.step_index = index;
        self.status.elapsed_s = elapsed_s;
    }

    /// Mark run `generation` completed; ignored unless it is the current run.
    pub fn mark_completed(&mut self, generation: u64, elapsed_s: Real)
        ensures
            final(self).current() == completed(old(self).current(), old(self).generation(), generation, elapsed_s),
            final(self).generation() == old(self).generation(),
            final(self).session() == old(self).session(),
    {
        proof {
            use_type_invariant(&*self);
        }
        if self.generation != generation {
            return;
        }
        self.status.state = ScenarioState::Completed;
        self.status.elapsed_s = elapsed_s;
    }

    /// Stop: supersede the current run and mark the status stopped.
    pub fn mark_stopped(&mut self)
        ensures
            final(self).generation() == next_generation(old(self).generation()),
            final(self).current() == stopped(old(self).current()),
            final(self).session() == old(self).session(),
    {
        proof {
            use_type_invariant(&*self);
        }
        self.generation = self.generation.wrapping_add(1);
        self.status.state = ScenarioState::Stopped;
    }
}

/// A run that has been superseded (by a stop or a newer run) can no longer
/// change the status: its progress and completion reports are ignored, and
/// it is no longer running.
pub proof fn lemma_superseded_run_is_inert(st: ScenarioStatus, g: u64, index: usize, elapsed: Real)
    ensures
        next_generation(g) != g,
        noted(st, next_generation(g), g, index, elapsed) == st,
        completed(st, next_generation(g), g, elapsed) == st,
{
}

/// Progress of the current run is recorded as reported.
pub proof fn lemma_current_run_progress(st: ScenarioStatus, g: u64, index: usize, elapsed: Real)
    ensures
        noted(st, g, g, index, elapsed).step_index == index,
        noted(st, g, g, index, elapsed).elapsed_s == elapsed,
        noted(st, g, g, index, elapsed).state == st.state,
        completed(st, g, g, elapsed).state == ScenarioState::Completed,
{
}

/// After installing a scenario the session holds it under its id, and a
/// later removal of that id takes it out again.
pub proof fn lemma_install_then_remove(
    before: Seq<ScenarioSpec>,
    installed: Seq<ScenarioSpec>,
    removed: Seq<ScenarioSpec>,
    s: ScenarioSpec,
)
    requires
        forall|x: ScenarioSpec| #[trigger] installed.contains(x) <==> (x == s || (before.contains(x) && x.id@ != s.id@)),
        forall|x: ScenarioSpec| #[trigger] removed.contains(x) <==> installed.contains(x) && x.id@ != s.id@,
    ensures
        installed.contains(s),
        has_session(installed, s.id@),
        !has_session(removed, s.id@),
        forall|x: ScenarioSpec| before.contains(x) && x.id@ != s.id@ ==> #[trigger] removed.contains(x),
{
    assert(installed.contains(s));
    let k = choose|k: int| 0 <= k < installed.len() && installed[k] == s;
    assert(installed[k].id@ == s.id@);
    if has_session(removed, s.id@) {
        let j = choose|j: int| 0 <= j < removed.len() && #[trigger] removed[j].id@ == s.id@;
        assert(removed.contains(removed[j]));
    }
}


/// Where step `i` falls in playback: its `at` in the total order of reals.
pub open spec fn step_key(steps: Seq<ScenarioStep>, i: int) -> int {
    steps[i].at_spec().total_key()
}

/// Step `a` plays before step `b`: it is due earlier, or due at the same
/// time and written earlier.
pub open spec fn plays_before(steps: Seq<ScenarioStep>, a: int, b: int) -> bool {
    step_key(steps, a) < step_key(steps, b) || (step_key(steps, a) == step_key(steps, b) && a < b)
}

/// The order a scenario's steps play in, as indices into `steps`: every
/// step once, sorted by `at`, steps due at the same time in document order.
pub fn playback_order(steps: &Vec<ScenarioStep>) -> (order: Vec<usize>)
    ensures
        order@.len() == steps@.len(),
        forall|k: int| 0 <= k < order@.len() ==> order@[k] < steps@.len(),
        forall|a: int, b: int|
            0 <= a < b < order@.len() ==> plays_before(steps@, #[trigger] order@[a] as int, #[trigger] order@[b] as int),
{
    let mut order: Vec<usize> = Vec::new();
    let mut i: usize = 0;
    while i < steps.len()
        invariant
            0 <= i <= steps@.len(),
            order@.len() == i,
            forall|k: int| 0 <= k < order@.len() ==> order@[k] < i,
            forall|a: int, b: int|
                0 <= a < b < order@.len() ==> plays_before(steps@, #[trigger] order@[a] as int, #[trigger] order@[b] as int),
        decreases steps@.len() - i,
    {
        let at = steps[i].at();
        let mut p: usize = 0;
        while p < order.len() && steps[order[p]].at().total_le(at)
            invariant
                0 <= p <= order@.len(),
                order@.len() == i,
                i < steps@.len(),
                at == steps@[i as int].at_spec(),
                forall|k: int| 0 <= k < order@.len() ==> order@[k] < i,
                forall|k: int| 0 <= k < p ==> step_key(steps@, #[trigger] order@[k] as int) <= step_key(steps@, i as int),
            decreases order@.len() - p,
        {
            p = p + 1;
        }
        let ghost old_order = order@;
        proof {
            assert forall|b: int| p <= b < old_order.len() implies step_key(steps@, i as int) < step_key(
                steps@,
                #[trigger] old_order[b] as int,
            ) by {
                if p < b {
                    assert(plays_before(steps@, old_order[p as int] as int, old_order[b] as int));
                }
            }
        }
        order.insert(p, i);
        proof {
            assert(order@ == old_order.insert(p as int, i));
            assert forall|a: int, b: int| 0 <= a < b < order@.len() implies plays_before(
                steps@,
                #[trigger] order@[a] as int,
                #[trigger] order@[b] as int,
            ) by {
                if b < p {
                    assert(plays_before(steps@, old_order[a] as int, old_order[b] as int));
                } else if b == p {
                    assert(step_key(steps@, old_order[a] as int) <= step_key(steps@, i as int));
                } else if a < p {
                    assert(plays_before(steps@, old_order[a] as int, old_order[b - 1] as int));
                } else if a == p {
                    assert(step_key(steps@, i as int) < step_key(steps@, old_order[b - 1] as int));
                } else {
                    assert(plays_before(steps@, old_order[a - 1] as int, old_order[b - 1] as int));
                }
            }
        }
        i = i + 1;
    }
    order
}

} // verus!
