use vstd::arithmetic::div_mod::lemma_fundamental_div_mod_converse;
use vstd::prelude::*;

use crate::outcome::{check, outcome_of, query_result_of, response_view, CheckOutcome};
use crate::registry::{NameServerEntry, Registry};
use crate::response::{AnswerRecord, QueryError};

verus! {

/// The result of one check, reported as soon as it is known.
#[derive(Clone, Copy, Debug, PartialEq, Eq, Structural)]
pub struct CheckReport {
    /// Index in the registry of the server that was asked.
    pub source: usize,
    /// Index in the registry of the server whose name was asked for.
    pub target: usize,
    /// How the check ended.
    pub outcome: CheckOutcome,
}

/// The pair checked at position `k` of a run over `n` servers: sources in
/// registry order, and for each source the targets in registry order.
pub open spec fn pair_at(n: int, k: int) -> (int, int) {
    (k / n, k % n)
}

/// The report at position `k` of a run over `entries` whose queries gave
/// `results`, in order.
pub open spec fn expected_report(
    entries: Seq<NameServerEntry>,
    results: Seq<Result<u32, QueryError>>,
    k: int,
) -> CheckReport {
    let n = entries.len() as int;
    CheckReport {
        source: pair_at(n, k).0 as usize,
        target: pair_at(n, k).1 as usize,
        outcome: outcome_of(results[k], entries[pair_at(n, k).1].address),
    }
}

/// Whether some reported check did not match.
pub open spec fn any_failure(reports: Seq<CheckReport>) -> bool {
    exists|k: int| 0 <= k < reports.len() && !(#[trigger] reports[k]).outcome.is_pass()
}

/// One run of the cross check over a registry. The caller asks for the next
/// pair, queries the source server for the target's name, and records the
/// response; the run classifies it, reports it, and keeps the aggregate
/// failure flag.
pub struct MeshRun {
    registry: Registry,
    reports: Vec<CheckReport>,
    failed: bool,
    results: Ghost<Seq<Result<u32, QueryError>>>,
}

impl MeshRun {
    /// The registry the run goes over.
    pub closed spec fn entries(&self) -> Seq<NameServerEntry> {
        self.registry@
    }

    /// Reports of the checks done so far, in the order they were done.
    pub closed spec fn report_log(&self) -> Seq<CheckReport> {
        self.reports@
    }

    /// Query results of the checks done so far, in the order they were done.
    pub closed spec fn query_results(&self) -> Seq<Result<u32, QueryError>> {
        self.results@
    }

    /// The aggregate failure flag.
    pub closed spec fn failure_flag(&self) -> bool {
        self.failed
    }

    /// Number of servers.
    pub open spec fn size(&self) -> int {
        self.entries().len() as int
    }

    /// Whether every pair has been checked.
    pub open spec fn is_done(&self) -> bool {
        self.report_log().len() == self.size() * self.size()
    }

    /// The run's invariant: the reports are those of the first pairs of the
    /// matrix in order, each classified from its query result, and the flag
    /// says whether any of them failed.
    pub open spec fn wf(&self) -> bool {
        let n = self.size();
        &&& self.size() * self.size() <= usize::MAX
        &&& self.report_log().len() <= n * n
        &&& self.query_results().len() == self.report_log().len()
        &&& forall|k: int|
            0 <= k < self.report_log().len() ==> #[trigger] self.report_log()[k]
                == expected_report(self.entries(), self.query_results(), k)
        &&& self.failure_flag() == any_failure(self.report_log())
    }

    /// Starts a run over a registry: nothing checked, nothing failed.
    pub fn new(registry: Registry) -> (r: MeshRun)
        requires
            registry.wf(),
        ensures
            r.wf(),
            r.entries() == registry@,
            r.report_log().len() == 0,
            !r.failure_flag(),
    {
        MeshRun { registry, reports: Vec::new(), failed: false, results: Ghost(Seq::empty()) }
    }

    /// The registry the run goes over.
    pub fn registry(&self) -> (r: &Registry)
        ensures
            r@ == self.entries(),
    {
        &self.registry
    }

    /// The next pair to check, as (source, target) registry indices, or
    /// `None` once all pairs are checked.
    pub fn next_pair(&self) -> (r: Option<(usize, usize)>)
        requires
            self.wf(),
        ensures
            r is None <==> self.is_done(),
            r matches Some(p) ==> p.0 == pair_at(self.size(), self.report_log().len() as int).0
                && p.1 == pair_at(self.size(), self.report_log().len() as int).1
                && p.0 < self.size() && p.1 < self.size(),
    {
        let n = self.registry.len();
        let k = self.reports.len();
        if k == n * n {
            None
        } else {
            proof {
                assert(n > 0) by (nonlinear_arith)
                    requires k < n * n;
                assert(k / n < n) by (nonlinear_arith)
                    requires k < n * n, n > 0;
                assert(k % n < n) by (nonlinear_arith)
                    requires n > 0;
            }
            Some((k / n, k % n))
        }
    }

    /// Records the response to the query for the next pair: classifies it
    /// against the target's expected address, appends the report, updates
    /// the failure flag, and returns the report. Whatever the outcome, the
    /// run moves on to the following pair.
    pub fn record(&mut self, response: Result<Vec<AnswerRecord>, QueryError>) -> (r: CheckReport)
        requires
            old(self).wf(),
            !old(self).is_done(),
        ensures
            final(self).wf(),
            final(self).entries() == old(self).entries(),
            final(self).query_results() == old(self).query_results().push(
                query_result_of(response_view(response)),
            ),
            final(self).report_log() == old(self).report_log().push(r),
            r == expected_report(
                final(self).entries(),
                final(self).query_results(),
                old(self).report_log().len() as int,
            ),
            final(self).failure_flag() == (old(self).failure_flag() || !r.outcome.is_pass()),
    {
        let n = self.registry.len();
        let k = self.reports.len();
        proof {
            assert(n > 0) by (nonlinear_arith)
                requires k < n * n;
        }
        let source = k / n;
        let target = k % n;
        let outcome = check(&response, self.registry.entries()[target].address);
        let report = CheckReport { source, target, outcome };
        let ghost old_reports = self.reports@;
        let ghost old_results = self.results@;
        self.reports.push(report);
        self.results = Ghost(self.results@.push(query_result_of(response_view(response))));
        if !outcome.passed() {
            self.failed = true;
        }
        proof {
            assert(self.reports@[k as int] == report);
            assert forall|m: int| 0 <= m < self.reports@.len() implies #[trigger] self.reports@[m]
                == expected_report(self.registry@, self.results@, m) by {
                if m < k {
                    assert(self.reports@[m] == old_reports[m]);
                    assert(self.results@[m] == old_results[m]);
                }
            }
            if !outcome.is_pass() {
                assert(!self.reports@[k as int].outcome.is_pass());
            } else {
                assert forall|m: int| 0 <= m < self.reports@.len() && !(
                #[trigger] self.reports@[m]).outcome.is_pass() implies 0 <= m < old_reports.len()
                    && !old_reports[m].outcome.is_pass() by {
                    assert(m != k);
                }
                if any_failure(old_reports) {
                    let w = choose|w: int| 0 <= w < old_reports.len() && !(#[trigger] old_reports[w]).outcome.is_pass();
                    assert(self.reports@[w] == old_reports[w]);
                }
            }
            assert(self.reports@.len() <= n * n) by (nonlinear_arith)
                requires self.reports@.len() == k + 1, k < n * n;
        }
        report
    }

    /// Whether every pair has been checked.
    pub fn is_complete(&self) -> (r: bool)
        requires
            self.wf(),
        ensures
            r == self.is_done(),
    {
        self.reports.len() == self.registry.len() * self.registry.len()
    }

    /// Whether any check so far did not match.
    pub fn failed(&self) -> (r: bool)
        ensures
            r == self.failure_flag(),
    {
        self.failed
    }

    /// The reports so far, in the order the checks were done.
    pub fn reports(&self) -> (r: &Vec<CheckReport>)
        ensures
            r@ == self.report_log(),
    {
        &self.reports
    }
}

/// A finished run has checked every ordered pair of servers exactly once,
/// the pair (source `i`, target `j`) at position `i * n + j`: sources in
/// registry order, and for each source all targets in registry order.
pub proof fn lemma_run_covers_matrix(run: &MeshRun)
    requires
        run.wf(),
        run.is_done(),
    ensures
        run.report_log().len() == run.size() * run.size(),
        forall|i: int, j: int|
            0 <= i < run.size() && 0 <= j < run.size() ==> {
                let rep = #[trigger] run.report_log()[i * run.size() + j];
                rep.source == i && rep.target == j
            },
{
    let n = run.size();
    assert forall|i: int, j: int| 0 <= i < n && 0 <= j < n implies {
        let rep = #[trigger] run.report_log()[i * n + j];
        rep.source == i && rep.target == j
    } by {
        assert(0 <= i * n + j < n * n) by (nonlinear_arith)
            requires 0 <= i < n, 0 <= j < n;
        assert(i * n + j == i * n + j);
        lemma_fundamental_div_mod_converse(i * n + j, n, i, j);
    }
}

/// When every query returns exactly the address expected for its target, the
/// run passes and every check is reported as matched.
pub proof fn lemma_all_correct_passes(run: &MeshRun)
    requires
        run.wf(),
        run.is_done(),
        forall|k: int|
            0 <= k < run.size() * run.size() ==> #[trigger] run.query_results()[k] == Ok::<
                u32,
                QueryError,
            >(run.entries()[pair_at(run.size(), k).1].address),
    ensures
        !run.failure_flag(),
        forall|k: int|
            0 <= k < run.size() * run.size() ==> #[trigger] run.report_log()[k].outcome
                == CheckOutcome::Matched,
{
    let n = run.size();
    assert forall|k: int| 0 <= k < n * n implies #[trigger] run.report_log()[k].outcome
        == CheckOutcome::Matched by {
        assert(run.report_log()[k] == expected_report(run.entries(), run.query_results(), k));
        assert(run.query_results()[k] == Ok::<u32, QueryError>(
            run.entries()[pair_at(n, k).1].address,
        ));
    }
    if run.failure_flag() {
        let w = choose|w: int|
            0 <= w < run.report_log().len() && !(#[trigger] run.report_log()[w]).outcome.is_pass();
        assert(run.report_log()[w].outcome == CheckOutcome::Matched);
    }
}

/// A query that returns an address other than the one expected for its
/// target makes the run fail, and that pair is reported as mismatched with the
/// address returned. When every other query returns its expected address,
/// every other pair is reported as matched.
pub proof fn lemma_mismatch_fails_run(run: &MeshRun, k0: int, a: u32)
    requires
        run.wf(),
        run.is_done(),
        0 <= k0 < run.size() * run.size(),
        run.query_results()[k0] == Ok::<u32, QueryError>(a),
        a != run.entries()[pair_at(run.size(), k0).1].address,
    ensures
        run.failure_flag(),
        run.report_log()[k0].outcome == CheckOutcome::Mismatched(a),
        (forall|k: int|
            0 <= k < run.size() * run.size() && k != k0 ==> #[trigger] run.query_results()[k]
                == Ok::<u32, QueryError>(run.entries()[pair_at(run.size(), k).1].address))
            ==> forall|k: int|
            0 <= k < run.size() * run.size() && k != k0 ==> #[trigger] run.report_log()[k].outcome
                == CheckOutcome::Matched,
{
    let n = run.size();
    assert(run.report_log()[k0] == expected_report(run.entries(), run.query_results(), k0));
    assert(!run.report_log()[k0].outcome.is_pass());
    if forall|k: int|
        0 <= k < n * n && k != k0 ==> #[trigger] run.query_results()[k] == Ok::<u32, QueryError>(
            run.entries()[pair_at(n, k).1].address,
        ) {
        assert forall|k: int| 0 <= k < n * n && k != k0 implies #[trigger] run.report_log()[k].outcome
            == CheckOutcome::Matched by {
            assert(run.report_log()[k] == expected_report(run.entries(), run.query_results(), k));
            assert(run.query_results()[k] == Ok::<u32, QueryError>(
                run.entries()[pair_at(n, k).1].address,
            ));
        }
    }
}

/// The signal of a finished run is failure exactly when some check over the
/// whole matrix did not match.
pub proof fn lemma_exit_signal_is_any_failure(run: &MeshRun)
    requires
        run.wf(),
        run.is_done(),
    ensures
        run.failure_flag() <==> exists|k: int|
            0 <= k < run.size() * run.size() && !(#[trigger] run.report_log()[k]).outcome.is_pass(),
{
}

} // verus!
