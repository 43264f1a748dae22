//! The retry state machine: a work queue of strategies, initialized to
//! `Default`, grown by error analysis after each failed attempt, deduplicated
//! and therefore bounded by the finite strategy universe.

use vstd::prelude::*;
use crate::model::BuildResult;
use crate::model::BuildSystem;
use crate::analysis::analysis_rules;
use crate::analysis::analysis_view;
use crate::analysis::analyze_spec;
use crate::analysis::lemma_analysis_in_universe;
use crate::analysis::lemma_default_in_universe;
use crate::analysis::lemma_universe_len;
use crate::analysis::strategy_universe;
use crate::analysis::analyze_cmake_error;
use crate::analysis::analyze_makefile_error;
use crate::analysis::analyze_platformio_error;
use crate::analysis::analyze_scons_error;
use crate::analysis::analyze_stm32_error;
use crate::analysis::analyze_zephyr_error;
use crate::strategy::BuildStrategy;
use crate::strategy::StrategyView;
use crate::strategy::clone_strategy;
use crate::strategy::strategies_view;
use crate::strategy::strategy_eq;

verus! {

/// What one build attempt reported back: a successful result, or the raw
/// error text of the failure.
pub enum AttemptOutcome {
    Success(BuildResult),
    Failure(String),
}

/// Candidate strategies for a failure of the given build system, or `None`
/// when no rule fires; a native-toolchain project has no rules.
pub fn analyze_error_rules(error: &str, system: BuildSystem) -> (r: Option<Vec<BuildStrategy>>)
    ensures
        analysis_view(r) == analyze_spec(error@, system),
{
    match system {
        BuildSystem::Cargo => None,
        BuildSystem::Makefile => analyze_makefile_error(error),
        BuildSystem::CMake => analyze_cmake_error(error),
        BuildSystem::PlatformIO => analyze_platformio_error(error),
        BuildSystem::ZephyrWest => analyze_zephyr_error(error),
        BuildSystem::STM32CubeIDE => analyze_stm32_error(error),
        BuildSystem::SCons => analyze_scons_error(error),
    }
}

/// `extra` appended to `q` left to right, skipping what is already present.
pub open spec fn append_dedup(q: Seq<StrategyView>, extra: Seq<StrategyView>) -> Seq<StrategyView>
    decreases extra.len(),
{
    if extra.len() == 0 {
        q
    } else {
        let q2 = if q.contains(extra[0]) {
            q
        } else {
            q.push(extra[0])
        };
        append_dedup(q2, extra.skip(1))
    }
}

proof fn lemma_no_dup_push(s: Seq<StrategyView>, x: StrategyView)
    requires
        s.no_duplicates(),
        !s.contains(x),
    ensures
        s.push(x).no_duplicates(),
{
    let t = s.push(x);
    assert forall|i: int, j: int| 0 <= i < t.len() && 0 <= j < t.len() && i != j implies t[i]
        != t[j] by {
        if i < s.len() && j < s.len() {
        } else if i < s.len() {
            assert(t[i] == s[i]);
            assert(s.contains(s[i]));
        } else if j < s.len() {
            assert(t[j] == s[j]);
            assert(s.contains(s[j]));
        }
    }
}

fn queue_contains(q: &Vec<BuildStrategy>, s: &BuildStrategy) -> (r: bool)
    ensures
        r == strategies_view(q@).contains(s@),
{
    let mut i: usize = 0;
    while i < q.len()
        invariant
            i <= q@.len(),
            forall|k: int| 0 <= k < i ==> #[trigger] strategies_view(q@)[k] != s@,
        decreases q@.len() - i,
    {
        if strategy_eq(&q[i], s) {
            proof {
                assert(strategies_view(q@)[i as int] == q@[i as int]@);
            }
            return true;
        }
        proof {
            assert(strategies_view(q@)[i as int] == q@[i as int]@);
        }
        i += 1;
    }
    false
}

/// The retry state machine over one build session. The caller applies the
/// strategy `next_strategy` names, runs the build, and reports the outcome
/// through `record_outcome` until `is_finished`.
pub struct Orchestrator {
    pub system: BuildSystem,
    pub queue: Vec<BuildStrategy>,
    pub cursor: usize,
    pub last_error: Option<String>,
    pub outcome: Option<BuildResult>,
    pub seed: Ghost<Option<StrategyView>>,
}

impl Orchestrator {
    /// The queue as a sequence of mathematical strategy values.
    pub open spec fn queue_views(self) -> Seq<StrategyView> {
        strategies_view(self.queue@)
    }

    /// Well-formedness: the cursor stays within the queue, the queue holds
    /// no duplicates, and everything queued is either from this system's
    /// strategy universe or the one cached seed strategy.
    pub open spec fn wf(self) -> bool {
        &&& self.cursor <= self.queue@.len()
        &&& self.queue@.len() >= 1
        &&& self.queue_views().no_duplicates()
        &&& forall|i: int|
            0 <= i < self.queue@.len() ==> strategy_universe(self.system).contains(
                #[trigger] self.queue_views()[i],
            ) || Some(self.queue_views()[i]) == self.seed@
    }

    /// An attempt succeeded and its result is held.
    pub open spec fn is_succeeded(self) -> bool {
        self.outcome is Some
    }

    /// The queue is exhausted without a success.
    pub open spec fn is_exhausted(self) -> bool {
        self.outcome is None && self.cursor >= self.queue@.len()
    }

    /// An attempt is still owed.
    pub open spec fn in_progress(self) -> bool {
        self.outcome is None && self.cursor < self.queue@.len()
    }

    /// A fresh session: the queue holds exactly `Default`.
    pub fn new(system: BuildSystem) -> (o: Orchestrator)
        ensures
            o.wf(),
            o.system == system,
            o.queue_views() == seq![StrategyView::Default],
            o.cursor == 0,
            o.outcome is None,
            o.last_error is None,
            o.seed@ is None,
            o.in_progress(),
    {
        let mut queue: Vec<BuildStrategy> = Vec::new();
        queue.push(BuildStrategy::Default);
        proof {
            assert(strategies_view(queue@) =~= seq![StrategyView::Default]);
            lemma_default_in_universe(system);
        }
        Orchestrator {
            system,
            queue,
            cursor: 0,
            last_error: None,
            outcome: None,
            seed: Ghost(None),
        }
    }

    /// The strategy of the attempt now owed, or `None` once the session is
    /// finished.
    pub fn next_strategy(&self) -> (r: Option<&BuildStrategy>)
        ensures
            match r {
                Some(s) => self.in_progress() && s@ == self.queue_views()[self.cursor as int],
                None => !self.in_progress(),
            },
    {
        if self.outcome.is_some() {
            return None;
        }
        if self.cursor < self.queue.len() {
            proof {
                assert(strategies_view(self.queue@)[self.cursor as int]
                    == self.queue@[self.cursor as int]@);
            }
            Some(&self.queue[self.cursor])
        } else {
            None
        }
    }

    /// Folds one attempt's outcome into the state machine. A success ends
    /// the session with its result and consults no rule. A failure stores
    /// the error text, appends the failure analysis to the end of the queue
    /// (deduplicated), and advances the cursor.
    #[verifier::loop_isolation(false)]
    pub fn record_outcome(&mut self, outcome: AttemptOutcome)
        requires
            old(self).wf(),
            old(self).in_progress(),
        ensures
            final(self).wf(),
            final(self).system == old(self).system,
            final(self).seed == old(self).seed,
            match outcome {
                AttemptOutcome::Success(res) => {
                    &&& final(self).outcome == Some(res)
                    &&& final(self).queue == old(self).queue
                    &&& final(self).cursor == old(self).cursor
                    &&& final(self).last_error == old(self).last_error
                },
                AttemptOutcome::Failure(err) => {
                    &&& final(self).outcome is None
                    &&& final(self).cursor == old(self).cursor + 1
                    &&& final(self).last_error matches Some(e) && e@ == err@
                    &&& final(self).queue_views() == append_dedup(
                        old(self).queue_views(),
                        analysis_rules(err@, old(self).system),
                    )
                },
            },
    {
        match outcome {
            AttemptOutcome::Success(res) => {
                self.outcome = Some(res);
            },
            AttemptOutcome::Failure(err) => {
                let extra = match analyze_error_rules(err.as_str(), self.system) {
                    Some(v) => v,
                    None => Vec::new(),
                };
                proof {
                    assert(strategies_view(extra@) =~= analysis_rules(err@, self.system));
                    lemma_analysis_in_universe(err@, self.system);
                }
                let ghost rules = analysis_rules(err@, self.system);
                let ghost q0 = self.queue_views();
                proof {
                    assert(rules.skip(0) =~= rules);
                }
                let mut i: usize = 0;
                while i < extra.len()
                    invariant
                        i <= extra@.len(),
                        strategies_view(extra@) == rules,
                        self.system == old(self).system,
                        self.seed == old(self).seed,
                        self.cursor == old(self).cursor,
                        self.outcome == old(self).outcome,
                        self.last_error == old(self).last_error,
                        self.queue@.len() >= q0.len(),
                        q0.len() >= 1,
                        self.queue_views().no_duplicates(),
                        forall|k: int|
                            0 <= k < self.queue@.len() ==> strategy_universe(
                                self.system,
                            ).contains(#[trigger] self.queue_views()[k]) || Some(
                                self.queue_views()[k],
                            ) == self.seed@,
                        append_dedup(q0, rules) == append_dedup(
                            self.queue_views(),
                            rules.skip(i as int),
                        ),
                    decreases extra@.len() - i,
                {
                    let ghost qcur = self.queue_views();
                    let ghost rest = rules.skip(i as int);
                    proof {
                        assert(rest[0] == rules[i as int]);
                        assert(rest.skip(1) =~= rules.skip(i + 1));
                        assert(rules[i as int] == extra@[i as int]@);
                    }
                    let s = clone_strategy(&extra[i]);
                    if !queue_contains(&self.queue, &s) {
                        proof {
                            lemma_no_dup_push(qcur, s@);
                        }
                        let ghost qprev = self.queue@;
                        self.queue.push(s);
                        proof {
                            assert(strategies_view(self.queue@) =~= qcur.push(rules[i as int]));
                            assert forall|k: int|
                                0 <= k < self.queue@.len() implies strategy_universe(
                                self.system,
                            ).contains(#[trigger] self.queue_views()[k]) || Some(
                                self.queue_views()[k],
                            ) == self.seed@ by {
                                if k < qprev.len() {
                                    assert(self.queue@[k] == qprev[k]);
                                    assert(self.queue_views()[k] == self.queue@[k]@);
                                    assert(qcur[k] == qprev[k]@);
                                    assert(strategy_universe(self.system).contains(qcur[k])
                                        || Some(qcur[k]) == self.seed@);
                                } else {
                                    assert(self.queue_views()[k] == rules[i as int]);
                                    assert(analysis_rules(err@, self.system)[i as int]
                                        == rules[i as int]);
                                    assert(strategy_universe(self.system).contains(
                                        rules[i as int],
                                    ));
                                }
                            }
                        }
                    }
                    i += 1;
                }
                proof {
                    assert(rules.skip(extra@.len() as int) =~= Seq::<StrategyView>::empty());
                }
                let qlen = self.queue.len();
                proof {
                    assert(self.cursor < qlen);
                }
                self.cursor = self.cursor + 1;
                self.last_error = Some(err);
            },
        }
    }

    /// The successful result, once an attempt has succeeded.
    pub fn succeeded(&self) -> (r: Option<&BuildResult>)
        ensures
            match r {
                Some(b) => self.outcome == Some(*b),
                None => self.outcome is None,
            },
    {
        self.outcome.as_ref()
    }

    /// The error text of the most recent failed attempt.
    pub fn last_error_text(&self) -> (r: Option<&String>)
        ensures
            match r {
                Some(e) => self.last_error == Some(*e),
                None => self.last_error is None,
            },
    {
        self.last_error.as_ref()
    }

    /// Whether the session is over, by success or exhaustion.
    pub fn is_finished(&self) -> (r: bool)
        ensures
            r == !self.in_progress(),
    {
        self.outcome.is_some() || self.cursor >= self.queue.len()
    }

    /// How many attempts have been consumed so far.
    pub fn attempts_made(&self) -> (r: usize)
        ensures
            r == self.cursor,
    {
        self.cursor
    }
}

/// One keyword pattern of the fix database with its remedies.
pub struct PatternEntry {
    pub pattern: String,
    pub strategies: Vec<BuildStrategy>,
}

/// One recorded success: the project fingerprint and the strategy that
/// last built it.
pub struct SuccessEntry {
    pub fingerprint: String,
    pub strategy: BuildStrategy,
}

/// A cache of what worked before: keyword patterns mapped to remedies, and
/// per-project last-known-good strategies.
pub struct BuildFixDatabase {
    pub error_patterns: Vec<PatternEntry>,
    pub successful_configs: Vec<SuccessEntry>,
}

/// Mathematical value of the success cache.
pub open spec fn success_view(s: Seq<SuccessEntry>) -> Seq<(Seq<char>, StrategyView)> {
    s.map_values(|e: SuccessEntry| (e.fingerprint@, e.strategy@))
}

/// The strategy recorded for a fingerprint: the most recent record wins.
pub open spec fn lookup_success(s: Seq<(Seq<char>, StrategyView)>, fp: Seq<char>) -> Option<
    StrategyView,
>
    decreases s.len(),
{
    if s.len() == 0 {
        None
    } else if s[0].0 == fp {
        Some(s[0].1)
    } else {
        lookup_success(s.skip(1), fp)
    }
}

/// The work queue a session starts from: a cached non-`Default` strategy is
/// tried first, then `Default`.
pub open spec fn session_queue(cached: Option<StrategyView>) -> Seq<StrategyView> {
    match cached {
        Some(sv) => if sv == StrategyView::Default {
            seq![StrategyView::Default]
        } else {
            seq![sv, StrategyView::Default]
        },
        None => seq![StrategyView::Default],
    }
}

/// The seed a session carries: the cached strategy when it is not `Default`.
pub open spec fn session_seed(cached: Option<StrategyView>) -> Option<StrategyView> {
    match cached {
        Some(sv) => if sv == StrategyView::Default {
            None
        } else {
            Some(sv)
        },
        None => None,
    }
}

/// Drives adaptive builds for one deployment: pure failure analysis plus a
/// cache of previously successful strategies.
pub struct IntelligentBuilder {
    pub fix_db: BuildFixDatabase,
}

impl IntelligentBuilder {
    /// Mathematical value of the owned success cache.
    pub open spec fn cache_view(self) -> Seq<(Seq<char>, StrategyView)> {
        success_view(self.fix_db.successful_configs@)
    }

    pub fn new(fix_db: BuildFixDatabase) -> (r: IntelligentBuilder)
        ensures
            r.fix_db == fix_db,
    {
        IntelligentBuilder { fix_db }
    }

    /// Candidate strategies for this failure, or `None` when no rule fires.
    /// The result depends on the error text and build system alone, never
    /// on the builder's own state.
    pub fn analyze_error(&self, error: &str, system: BuildSystem) -> (r: Option<
        Vec<BuildStrategy>,
    >)
        ensures
            analysis_view(r) == analyze_spec(error@, system),
    {
        analyze_error_rules(error, system)
    }

    /// The strategy last recorded as successful for this fingerprint.
    #[verifier::loop_isolation(false)]
    pub fn cached_strategy(&self, fingerprint: &str) -> (r: Option<&BuildStrategy>)
        ensures
            match r {
                Some(s) => lookup_success(self.cache_view(), fingerprint@) == Some(s@),
                None => lookup_success(self.cache_view(), fingerprint@) is None,
            },
    {
        let v = &self.fix_db.successful_configs;
        let ghost sv = self.cache_view();
        proof {
            assert(sv.skip(0) =~= sv);
        }
        let mut i: usize = 0;
        while i < v.len()
            invariant
                i <= v@.len(),
                lookup_success(sv, fingerprint@) == lookup_success(
                    sv.skip(i as int),
                    fingerprint@,
                ),
            decreases v@.len() - i,
        {
            proof {
                assert(sv[i as int] == (v@[i as int].fingerprint@, v@[i as int].strategy@));
                assert(sv.skip(i as int)[0] == sv[i as int]);
            }
            if crate::text::str_eq(v[i].fingerprint.as_str(), fingerprint) {
                return Some(&v[i].strategy);
            }
            proof {
                assert(sv.skip(i as int).skip(1) =~= sv.skip(i + 1));
            }
            i += 1;
        }
        proof {
            assert(sv.skip(v@.len() as int) =~= Seq::<(Seq<char>, StrategyView)>::empty());
        }
        None
    }

    /// Records the strategy that just built this project, keyed by its
    /// fingerprint; a later record for the same fingerprint wins.
    pub fn record_success(&mut self, fingerprint: &str, strategy: BuildStrategy)
        ensures
            final(self).cache_view() == old(self).cache_view().insert(
                0,
                (fingerprint@, strategy@),
            ),
            lookup_success(final(self).cache_view(), fingerprint@) == Some(strategy@),
            forall|x: Seq<char>|
                x != fingerprint@ ==> #[trigger] lookup_success(final(self).cache_view(), x)
                    == lookup_success(old(self).cache_view(), x),
            final(self).fix_db.error_patterns == old(self).fix_db.error_patterns,
    {
        let entry = SuccessEntry { fingerprint: fingerprint.to_owned(), strategy };
        let ghost oldv = self.cache_view();
        self.fix_db.successful_configs.insert(0, entry);
        proof {
            let newv = self.cache_view();
            assert(newv =~= oldv.insert(0, (fingerprint@, strategy@)));
            assert(newv[0] == (fingerprint@, strategy@));
            assert(newv.skip(1) =~= oldv);
        }
    }

    /// Opens a retry session for one project: a cached non-`Default`
    /// strategy, when one is recorded for the fingerprint, is queued ahead
    /// of `Default`.
    pub fn start_session(&self, system: BuildSystem, fingerprint: &str) -> (o: Orchestrator)
        ensures
            o.wf(),
            o.system == system,
            o.cursor == 0,
            o.outcome is None,
            o.last_error is None,
            o.in_progress(),
            o.queue_views() == session_queue(lookup_success(self.cache_view(), fingerprint@)),
            o.seed@ == session_seed(lookup_success(self.cache_view(), fingerprint@)),
    {
        let cached = self.cached_strategy(fingerprint);
        let mut queue: Vec<BuildStrategy> = Vec::new();
        let ghost seedv: Option<StrategyView>;
        match cached {
            Some(s) => {
                if strategy_eq(s, &BuildStrategy::Default) {
                    queue.push(BuildStrategy::Default);
                    proof {
                        seedv = None;
                        assert(strategies_view(queue@) =~= seq![StrategyView::Default]);
                    }
                } else {
                    queue.push(clone_strategy(s));
                    queue.push(BuildStrategy::Default);
                    proof {
                        seedv = Some(s@);
                        assert(strategies_view(queue@) =~= seq![s@, StrategyView::Default]);
                    }
                }
            },
            None => {
                queue.push(BuildStrategy::Default);
                proof {
                    seedv = None;
                    assert(strategies_view(queue@) =~= seq![StrategyView::Default]);
                }
            },
        }
        proof {
            lemma_default_in_universe(system);
        }
        Orchestrator {
            system,
            queue,
            cursor: 0,
            last_error: None,
            outcome: None,
            seed: Ghost(seedv),
        }
    }
}

/// The retry loop is bounded: with a deduplicated queue drawn from the
/// finite per-system strategy universe (plus at most one cached seed), the
/// queue never exceeds that universe's size plus one, so a session performs
/// at most that many attempts — at most six — before it is finished.
pub proof fn lemma_bounded_attempts(o: Orchestrator)
    requires
        o.wf(),
    ensures
        o.cursor <= o.queue@.len(),
        o.queue@.len() <= strategy_universe(o.system).len() + 1,
        o.queue@.len() <= 6,
{
    broadcast use vstd::seq_lib::seq_to_set_is_finite;
    broadcast use vstd::set::group_set_axioms;

    let qv = o.queue_views();
    let u = strategy_universe(o.system);
    let ext = match o.seed@ {
        Some(s) => u.to_set().insert(s),
        None => u.to_set(),
    };
    qv.unique_seq_to_set();
    assert forall|x: StrategyView| qv.to_set().contains(x) implies ext.contains(x) by {
        let i = choose|i: int| 0 <= i < qv.len() && qv[i] == x;
        assert(qv.contains(x));
        assert(u.contains(x) || Some(x) == o.seed@);
        if u.contains(x) {
            assert(u.to_set().contains(x));
        }
    }
    vstd::set_lib::lemma_len_subset(qv.to_set(), ext);
    u.lemma_cardinality_of_set();
    lemma_universe_len(o.system);
    assert(ext.len() <= u.to_set().len() + 1);
    assert(o.queue@.len() == qv.len());
}

} // verus!
