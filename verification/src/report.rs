//! The report that the checks fill, and the two ways of running them: stop at
//! the first hard error, or collect everything.

use vstd::prelude::*;
use crate::gather::{gather, lemma_gather_split};
use crate::issue::{Issue, IssueModel};

verus! {

/// What to do when a check finds a hard error.
#[derive(Debug, Clone, Copy, PartialEq, Eq)]
pub enum Strategy {
    /// Record the first hard error and stop. Warnings are not recorded.
    FailFast,
    /// Record every hard error and every warning, and run all checks.
    CollectAll,
}

impl Strategy {
    /// Of the hard errors that a check can find, those that get recorded.
    pub open spec fn kept(self, errors: Seq<IssueModel>) -> Seq<IssueModel> {
        match self {
            Strategy::FailFast => if errors.len() > 0 {
                seq![errors[0]]
            } else {
                Seq::empty()
            },
            Strategy::CollectAll => errors,
        }
    }

    /// Of the warnings that a check can find, those that get recorded.
    pub open spec fn noted(self, warnings: Seq<IssueModel>) -> Seq<IssueModel> {
        match self {
            Strategy::FailFast => Seq::empty(),
            Strategy::CollectAll => warnings,
        }
    }

    /// Whether the run continues after a check that can find `errors`.
    pub open spec fn goes_on(self, errors: Seq<IssueModel>) -> bool {
        self is CollectAll || errors.len() == 0
    }

    /// Whether this strategy records warnings and runs every check.
    pub fn collects(&self) -> (all: bool)
        ensures
            all == (*self is CollectAll),
    {
        match self {
            Strategy::FailFast => false,
            Strategy::CollectAll => true,
        }
    }
}

/// The hard errors and the warnings gathered so far, each in the order in
/// which the checks found them.
#[derive(Debug, Clone, PartialEq, Eq)]
pub struct ValidationReport {
    pub errors: Vec<Issue>,
    pub warnings: Vec<Issue>,
}

/// The model of [`ValidationReport`].
pub struct ReportModel {
    pub errors: Seq<IssueModel>,
    pub warnings: Seq<IssueModel>,
}

impl DeepView for ValidationReport {
    type V = ReportModel;

    open spec fn deep_view(&self) -> ReportModel {
        ReportModel { errors: self.errors.deep_view(), warnings: self.warnings.deep_view() }
    }
}

/// The lines of text that report `issues`, one per finding.
pub open spec fn rendered(issues: Seq<IssueModel>) -> Seq<Seq<char>> {
    Seq::new(issues.len(), |i: int| issues[i].message())
}

/// Renders `issues` as lines of text, one per finding, in order.
pub fn render(issues: &Vec<Issue>) -> (lines: Vec<String>)
    ensures
        lines.deep_view() == rendered(issues.deep_view()),
{
    let mut lines: Vec<String> = Vec::new();
    let mut i: usize = 0;
    while i < issues.len()
        invariant
            i <= issues.len(),
            lines.len() == i,
            forall|k: int| 0 <= k < i ==> (#[trigger] lines[k])@ == issues[k].deep_view().message(),
        decreases issues.len() - i,
    {
        lines.push(issues[i].message());
        i += 1;
    }
    assert(lines.deep_view() =~= rendered(issues.deep_view()));
    lines
}

impl ReportModel {
    /// The report with nothing in it.
    pub open spec fn empty() -> ReportModel {
        ReportModel { errors: Seq::empty(), warnings: Seq::empty() }
    }

    /// This report after a check that can find `errors` and `warnings` has
    /// run under `strategy`.
    pub open spec fn extended(
        self,
        strategy: Strategy,
        errors: Seq<IssueModel>,
        warnings: Seq<IssueModel>,
    ) -> ReportModel {
        ReportModel {
            errors: self.errors + strategy.kept(errors),
            warnings: self.warnings + strategy.noted(warnings),
        }
    }

    /// A run has failed exactly when a hard error was recorded.
    pub open spec fn has_failed(self) -> bool {
        self.errors.len() > 0
    }
}

/// A check that finds nothing at any position.
pub open spec fn nothing_at() -> spec_fn(int) -> Seq<IssueModel> {
    |i: int| Seq::empty()
}

/// A check that finds nothing leaves the report as it is.
pub proof fn lemma_extended_by_nothing(report: ReportModel, strategy: Strategy)
    ensures
        report.extended(strategy, Seq::empty(), Seq::empty()) == report,
{
    let same = report.extended(strategy, Seq::empty(), Seq::empty());
    assert(same.errors =~= report.errors);
    assert(same.warnings =~= report.warnings);
}

/// A run that stops at the first hard error takes no note of warnings.
pub proof fn lemma_warnings_ignored(report: ReportModel, warnings: Seq<IssueModel>)
    ensures
        report.extended(Strategy::FailFast, Seq::empty(), warnings) == report,
{
    let same = report.extended(Strategy::FailFast, Seq::empty(), warnings);
    assert(same.errors =~= report.errors);
    assert(same.warnings =~= report.warnings);
}

/// Two checks that run one after the other record what a single check with
/// the joined findings would record, as long as the first lets the run go on.
pub proof fn lemma_extended_twice(
    report: ReportModel,
    strategy: Strategy,
    errors: Seq<IssueModel>,
    warnings: Seq<IssueModel>,
    more_errors: Seq<IssueModel>,
    more_warnings: Seq<IssueModel>,
)
    requires
        strategy.goes_on(errors),
    ensures
        report.extended(strategy, errors, warnings).extended(strategy, more_errors, more_warnings)
            == report.extended(strategy, errors + more_errors, warnings + more_warnings),
        strategy.goes_on(errors + more_errors) == strategy.goes_on(more_errors),
{
    let twice = report.extended(strategy, errors, warnings).extended(
        strategy,
        more_errors,
        more_warnings,
    );
    let once = report.extended(strategy, errors + more_errors, warnings + more_warnings);
    assert(twice.errors =~= once.errors);
    assert(twice.warnings =~= once.warnings);
}

/// Once a check has stopped the run, the findings of later checks change
/// nothing.
pub proof fn lemma_extended_stopped(
    report: ReportModel,
    strategy: Strategy,
    errors: Seq<IssueModel>,
    warnings: Seq<IssueModel>,
    more_errors: Seq<IssueModel>,
    more_warnings: Seq<IssueModel>,
)
    requires
        !strategy.goes_on(errors),
    ensures
        report.extended(strategy, errors, warnings) == report.extended(
            strategy,
            errors + more_errors,
            warnings + more_warnings,
        ),
        !strategy.goes_on(errors + more_errors),
{
    let short = report.extended(strategy, errors, warnings);
    let long = report.extended(strategy, errors + more_errors, warnings + more_warnings);
    assert(short.errors =~= long.errors);
    assert(short.warnings =~= long.warnings);
}

/// Nothing is found where no position has a finding.
pub proof fn lemma_gather_nothing(n: nat)
    ensures
        gather(n, nothing_at()) == Seq::<IssueModel>::empty(),
    decreases n,
{
    if n > 0 {
        lemma_gather_nothing((n - 1) as nat);
    }
    assert(gather(n, nothing_at()) =~= Seq::<IssueModel>::empty());
}

/// One more position in a run that has not stopped: the report after the
/// check of position `i` is the report of the positions below `i + 1`.
pub proof fn lemma_gather_step(
    report: ReportModel,
    strategy: Strategy,
    i: nat,
    errors_at: spec_fn(int) -> Seq<IssueModel>,
    warnings_at: spec_fn(int) -> Seq<IssueModel>,
)
    requires
        strategy.goes_on(gather(i, errors_at)),
    ensures
        report.extended(strategy, gather(i, errors_at), gather(i, warnings_at)).extended(
            strategy,
            errors_at(i as int),
            warnings_at(i as int),
        ) == report.extended(strategy, gather(i + 1, errors_at), gather(i + 1, warnings_at)),
        strategy.goes_on(gather(i + 1, errors_at)) == strategy.goes_on(errors_at(i as int)),
{
    lemma_extended_twice(
        report,
        strategy,
        gather(i, errors_at),
        gather(i, warnings_at),
        errors_at(i as int),
        warnings_at(i as int),
    );
}

/// A run that has stopped below position `i` records the same as a run over
/// all `n` positions would.
pub proof fn lemma_gather_stopped(
    report: ReportModel,
    strategy: Strategy,
    i: nat,
    n: nat,
    errors_at: spec_fn(int) -> Seq<IssueModel>,
    warnings_at: spec_fn(int) -> Seq<IssueModel>,
)
    requires
        i <= n,
        !strategy.goes_on(gather(i, errors_at)),
    ensures
        report.extended(strategy, gather(i, errors_at), gather(i, warnings_at))
            == report.extended(strategy, gather(n, errors_at), gather(n, warnings_at)),
        !strategy.goes_on(gather(n, errors_at)),
{
    lemma_gather_split(i, n, errors_at);
    lemma_gather_split(i, n, warnings_at);
    lemma_extended_stopped(
        report,
        strategy,
        gather(i, errors_at),
        gather(i, warnings_at),
        gather(n, errors_at).skip(gather(i, errors_at).len() as int),
        gather(n, warnings_at).skip(gather(i, warnings_at).len() as int),
    );
}

impl ValidationReport {
    /// A report with no findings.
    pub fn new() -> (report: ValidationReport)
        ensures
            report.deep_view() == ReportModel::empty(),
    {
        let report = ValidationReport { errors: Vec::new(), warnings: Vec::new() };
        assert(report.errors.deep_view() =~= Seq::empty());
        assert(report.warnings.deep_view() =~= Seq::empty());
        report
    }

    /// Whether the run has failed: whether any hard error was recorded,
    /// however many warnings there are.
    pub fn has_failed(&self) -> (failed: bool)
        ensures
            failed == self.deep_view().has_failed(),
    {
        self.errors.len() > 0
    }

    /// Records one hard error under `strategy` and says whether the run goes
    /// on.
    pub fn fail(&mut self, strategy: Strategy, error: Issue) -> (go_on: bool)
        ensures
            final(self).deep_view() == old(self).deep_view().extended(
                strategy,
                seq![error.deep_view()],
                Seq::empty(),
            ),
            go_on == (strategy is CollectAll),
    {
        let ghost before = self.deep_view();
        let ghost found = error.deep_view();
        self.errors.push(error);
        proof {
            let after = before.extended(strategy, seq![found], Seq::empty());
            assert(self.errors.deep_view() =~= after.errors);
            assert(self.warnings.deep_view() =~= after.warnings);
        }
        strategy.collects()
    }

    /// Records one warning, unless `strategy` stops at the first hard error.
    pub fn warn(&mut self, strategy: Strategy, warning: Issue)
        ensures
            final(self).deep_view() == old(self).deep_view().extended(
                strategy,
                Seq::empty(),
                seq![warning.deep_view()],
            ),
    {
        let ghost before = self.deep_view();
        let ghost found = warning.deep_view();
        if strategy.collects() {
            self.warnings.push(warning);
        }
        proof {
            let after = before.extended(strategy, Seq::empty(), seq![found]);
            assert(self.errors.deep_view() =~= after.errors);
            assert(self.warnings.deep_view() =~= after.warnings);
        }
    }

    /// Gives up the report for its first hard error, if it has one.
    pub fn into_first_error(self) -> (first: Option<Issue>)
        ensures
            match first {
                Some(error) => self.deep_view().has_failed() && error.deep_view()
                    == self.deep_view().errors[0],
                None => !self.deep_view().has_failed(),
            },
    {
        let mut errors = self.errors;
        if errors.len() > 0 {
            let error = errors.swap_remove(0);
            assert(self.errors.deep_view()[0] == error.deep_view());
            Some(error)
        } else {
            None
        }
    }
}

} // verus!
