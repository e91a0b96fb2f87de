//! The cross-reference check: every package that a dependency list or a
//! group names must exist; alternatives and related packages should.

use vstd::prelude::*;
use vstd::hash_map::StringHashMap;
use crate::closure::{
    declared_names, dependency_targets, group_reference_errors, group_reference_errors_at,
    package_reference_errors, package_reference_errors_at, package_reference_warnings,
    package_reference_warnings_at, reference_errors, reference_warnings, unresolved,
    unresolved_at, unresolved_one, Reference,
};
use crate::gather::gather;
use crate::issue::{Issue, IssueModel};
use crate::model::{Dependency, Package, PackageGroup};
use crate::report::{
    lemma_extended_stopped, lemma_extended_twice, lemma_gather_nothing, lemma_gather_step,
    lemma_gather_stopped, lemma_warnings_ignored, nothing_at, ReportModel, Strategy,
    ValidationReport,
};
use crate::text::Text;

verus! {

/// The names of a package collection, for lookup.
pub struct NameSet {
    names: StringHashMap<usize>,
}

impl View for NameSet {
    type V = Set<Text>;

    closed spec fn view(&self) -> Set<Text> {
        self.names@.dom()
    }
}

impl NameSet {
    /// Collects the names that `packages` declare.
    pub fn of_packages(packages: &Vec<Package>) -> (known: NameSet)
        ensures
            known@ == declared_names(packages.deep_view()),
    {
        let mut names: StringHashMap<usize> = StringHashMap::new();
        let mut i: usize = 0;
        while i < packages.len()
            invariant
                i <= packages.len(),
                forall|name: Text|
                    names@.contains_key(name) <==> exists|j: int|
                        0 <= j < i && (#[trigger] packages.deep_view()[j]).name == name,
            decreases packages.len() - i,
        {
            names.insert(packages[i].name.clone(), i);
            assert(packages.deep_view()[i as int].name == packages[i as int].name@);
            i += 1;
        }
        let known = NameSet { names };
        assert(known@ =~= declared_names(packages.deep_view()));
        known
    }

    /// Whether `name` is among the names.
    pub fn contains(&self, name: &str) -> (found: bool)
        ensures
            found == self@.contains(name@),
    {
        self.names.contains_key(name)
    }
}

/// Something that names a package: a bare name, or a dependency entry.
pub trait Target {
    /// The name of the package referred to.
    spec fn target(&self) -> Text;

    /// The name of the package referred to.
    fn target_name(&self) -> (name: &String)
        ensures
            name@ == self.target(),
    ;
}

impl Target for String {
    open spec fn target(&self) -> Text {
        self@
    }

    fn target_name(&self) -> (name: &String) {
        self
    }
}

impl Target for Dependency {
    open spec fn target(&self) -> Text {
        self.package@
    }

    fn target_name(&self) -> (name: &String) {
        &self.package
    }
}

/// The packages that a list of references names, in order.
pub open spec fn targets_of<T: Target>(items: Seq<T>) -> Seq<Text> {
    Seq::new(items.len(), |i: int| items[i].target())
}

impl ReportModel {
    /// This report after a check that can find `found` has run under
    /// `strategy`: the findings are hard errors where `binding` holds, and
    /// warnings where it does not.
    pub open spec fn filed(
        self,
        strategy: Strategy,
        binding: bool,
        found: Seq<IssueModel>,
    ) -> ReportModel {
        if binding {
            self.extended(strategy, found, Seq::empty())
        } else {
            self.extended(strategy, Seq::empty(), found)
        }
    }
}

/// Whether the run continues after a check that can find `found`, which are
/// hard errors where `binding` holds and warnings where it does not.
pub open spec fn run_goes_on(strategy: Strategy, binding: bool, found: Seq<IssueModel>) -> bool {
    !binding || strategy.goes_on(found)
}

/// Checks one reference.
fn check_reference(
    known: &NameSet,
    kind: Reference,
    owner: &String,
    target: &String,
    strategy: Strategy,
    report: &mut ValidationReport,
) -> (go_on: bool)
    ensures
        final(report).deep_view() == old(report).deep_view().filed(
            strategy,
            kind.is_binding(),
            unresolved_one(known@, kind, owner@, target@),
        ),
        go_on == run_goes_on(
            strategy,
            kind.is_binding(),
            unresolved_one(known@, kind, owner@, target@),
        ),
{
    let ghost before = report.deep_view();
    if known.contains(target.as_str()) {
        proof {
            let same = before.extended(strategy, Seq::empty(), Seq::empty());
            assert(same.errors =~= before.errors);
            assert(same.warnings =~= before.warnings);
        }
        true
    } else {
        let issue = kind.report_unresolved(owner, target);
        if kind.binds() {
            report.fail(strategy, issue)
        } else {
            report.warn(strategy, issue);
            true
        }
    }
}

/// Checks a list of references of one kind, all made by `owner`.
#[verifier::loop_isolation(false)]
fn check_targets<T: Target>(
    known: &NameSet,
    kind: Reference,
    owner: &String,
    items: &Vec<T>,
    strategy: Strategy,
    report: &mut ValidationReport,
) -> (go_on: bool)
    ensures
        final(report).deep_view() == old(report).deep_view().filed(
            strategy,
            kind.is_binding(),
            unresolved(known@, kind, owner@, targets_of(items@)),
        ),
        go_on == run_goes_on(
            strategy,
            kind.is_binding(),
            unresolved(known@, kind, owner@, targets_of(items@)),
        ),
{
    let ghost before = report.deep_view();
    let ghost found_at = unresolved_at(known@, kind, owner@, targets_of(items@));
    let ghost errors_at = if kind.is_binding() {
        found_at
    } else {
        nothing_at()
    };
    let ghost warnings_at = if kind.is_binding() {
        nothing_at()
    } else {
        found_at
    };
    let n: usize = items.len();
    let mut i: usize = 0;
    proof {
        let same = before.extended(strategy, Seq::empty(), Seq::empty());
        assert(same.errors =~= before.errors);
        assert(same.warnings =~= before.warnings);
    }
    while i < n
        invariant
            i <= n,
            report.deep_view() == before.extended(
                strategy,
                gather(i as nat, errors_at),
                gather(i as nat, warnings_at),
            ),
            strategy.goes_on(gather(i as nat, errors_at)),
        decreases n - i,
    {
        let go_on = check_reference(known, kind, owner, items[i].target_name(), strategy, report);
        proof {
            assert(targets_of(items@)[i as int] == items@[i as int].target());
            lemma_gather_step(before, strategy, i as nat, errors_at, warnings_at);
        }
        if !go_on {
            proof {
                lemma_gather_stopped(before, strategy, (i + 1) as nat, n as nat, errors_at, warnings_at);
                lemma_gather_nothing(n as nat);
            }
            return false;
        }
        i += 1;
    }
    proof {
        lemma_gather_nothing(n as nat);
    }
    true
}

/// The references of a dependency list are the packages that its model
/// names.
proof fn lemma_dependency_targets(dependencies: &Vec<Dependency>)
    ensures
        targets_of(dependencies@) == dependency_targets(dependencies.deep_view()),
{
    assert(targets_of(dependencies@) =~= dependency_targets(dependencies.deep_view()));
}

/// The references of a list of names are the names themselves.
proof fn lemma_name_targets(names: &Vec<String>)
    ensures
        targets_of(names@) == names.deep_view(),
{
    assert(targets_of(names@) =~= names.deep_view());
}

/// Checks the dependencies, alternatives and related packages of one package.
pub fn check_package_references(
    known: &NameSet,
    package: &Package,
    strategy: Strategy,
    report: &mut ValidationReport,
) -> (go_on: bool)
    ensures
        final(report).deep_view() == old(report).deep_view().extended(
            strategy,
            package_reference_errors(known@, package.deep_view()),
            package_reference_warnings(known@, package.deep_view()),
        ),
        go_on == strategy.goes_on(package_reference_errors(known@, package.deep_view())),
{
    let ghost before = report.deep_view();
    let ghost model = package.deep_view();
    let ghost required = unresolved(
        known@,
        Reference::RequiredDependency,
        model.name,
        dependency_targets(model.dependencies.required),
    );
    let ghost optional = unresolved(
        known@,
        Reference::OptionalDependency,
        model.name,
        dependency_targets(model.dependencies.optional),
    );
    let ghost alternatives = unresolved(
        known@,
        Reference::Alternative,
        model.name,
        model.alternatives,
    );
    let ghost related = unresolved(known@, Reference::Related, model.name, model.related);
    let ghost none = Seq::<IssueModel>::empty();
    proof {
        lemma_dependency_targets(&package.dependencies.required);
        lemma_dependency_targets(&package.dependencies.optional);
        lemma_name_targets(&package.alternatives);
        lemma_name_targets(&package.related);
        assert(none + none =~= none);
        assert(none + alternatives =~= alternatives);
        assert(required + none =~= required);
        assert((required + optional) + none =~= required + optional);
    }
    let go_on = check_targets(
        known,
        Reference::RequiredDependency,
        &package.name,
        &package.dependencies.required,
        strategy,
        report,
    );
    if !go_on {
        proof {
            lemma_extended_stopped(before, strategy, required, none, optional, alternatives + related);
        }
        return false;
    }
    let go_on = check_targets(
        known,
        Reference::OptionalDependency,
        &package.name,
        &package.dependencies.optional,
        strategy,
        report,
    );
    proof {
        lemma_extended_twice(before, strategy, required, none, optional, none);
    }
    if !go_on {
        proof {
            lemma_extended_stopped(
                before,
                strategy,
                required + optional,
                none,
                none,
                alternatives + related,
            );
        }
        return false;
    }
    if strategy.collects() {
        check_targets(
            known,
            Reference::Alternative,
            &package.name,
            &package.alternatives,
            strategy,
            report,
        );
        check_targets(known, Reference::Related, &package.name, &package.related, strategy, report);
        proof {
            lemma_extended_twice(before, strategy, required + optional, none, none, alternatives);
            lemma_extended_twice(
                before,
                strategy,
                required + optional,
                alternatives,
                none,
                related,
            );
        }
    } else {
        proof {
            lemma_warnings_ignored(report.deep_view(), alternatives + related);
            lemma_extended_twice(
                before,
                strategy,
                required + optional,
                none,
                none,
                alternatives + related,
            );
        }
    }
    true
}

/// Checks the required and the optional members of one group.
pub fn check_group_references(
    known: &NameSet,
    group: &PackageGroup,
    strategy: Strategy,
    report: &mut ValidationReport,
) -> (go_on: bool)
    ensures
        final(report).deep_view() == old(report).deep_view().extended(
            strategy,
            group_reference_errors(known@, group.deep_view()),
            Seq::empty(),
        ),
        go_on == strategy.goes_on(group_reference_errors(known@, group.deep_view())),
{
    let ghost before = report.deep_view();
    let ghost model = group.deep_view();
    let ghost required = unresolved(
        known@,
        Reference::GroupRequired,
        model.id,
        model.packages.required,
    );
    let ghost optional = unresolved(
        known@,
        Reference::GroupOptional,
        model.id,
        model.packages.optional,
    );
    let ghost none = Seq::<IssueModel>::empty();
    proof {
        lemma_name_targets(&group.packages.required);
        lemma_name_targets(&group.packages.optional);
        assert(none + none =~= none);
    }
    let go_on = check_targets(
        known,
        Reference::GroupRequired,
        &group.id,
        &group.packages.required,
        strategy,
        report,
    );
    if !go_on {
        proof {
            lemma_extended_stopped(before, strategy, required, none, optional, none);
        }
        return false;
    }
    let go_on = check_targets(
        known,
        Reference::GroupOptional,
        &group.id,
        &group.packages.optional,
        strategy,
        report,
    );
    proof {
        lemma_extended_twice(before, strategy, required, none, optional, none);
    }
    go_on
}

/// Checks the references of every package, in collection order.
fn check_all_packages(
    known: &NameSet,
    packages: &Vec<Package>,
    strategy: Strategy,
    report: &mut ValidationReport,
) -> (go_on: bool)
    ensures
        final(report).deep_view() == old(report).deep_view().extended(
            strategy,
            gather(packages.len() as nat, package_reference_errors_at(known@, packages.deep_view())),
            gather(
                packages.len() as nat,
                package_reference_warnings_at(known@, packages.deep_view()),
            ),
        ),
        go_on == strategy.goes_on(
            gather(packages.len() as nat, package_reference_errors_at(known@, packages.deep_view())),
        ),
{
    let ghost before = report.deep_view();
    let ghost errors_at = package_reference_errors_at(known@, packages.deep_view());
    let ghost warnings_at = package_reference_warnings_at(known@, packages.deep_view());
    proof {
        let same = before.extended(strategy, Seq::empty(), Seq::empty());
        assert(same.errors =~= before.errors);
        assert(same.warnings =~= before.warnings);
    }
    let mut i: usize = 0;
    while i < packages.len()
        invariant
            i <= packages.len(),
            before == old(report).deep_view(),
            errors_at == package_reference_errors_at(known@, packages.deep_view()),
            warnings_at == package_reference_warnings_at(known@, packages.deep_view()),
            report.deep_view() == before.extended(
                strategy,
                gather(i as nat, errors_at),
                gather(i as nat, warnings_at),
            ),
            strategy.goes_on(gather(i as nat, errors_at)),
        decreases packages.len() - i,
    {
        let go_on = check_package_references(known, &packages[i], strategy, report);
        proof {
            assert(packages.deep_view()[i as int] == packages[i as int].deep_view());
            lemma_gather_step(before, strategy, i as nat, errors_at, warnings_at);
        }
        if !go_on {
            proof {
                lemma_gather_stopped(
                    before,
                    strategy,
                    (i + 1) as nat,
                    packages.len() as nat,
                    errors_at,
                    warnings_at,
                );
            }
            return false;
        }
        i += 1;
    }
    true
}

/// Checks the members of every group, in collection order.
fn check_all_groups(
    known: &NameSet,
    groups: &Vec<PackageGroup>,
    strategy: Strategy,
    report: &mut ValidationReport,
) -> (go_on: bool)
    ensures
        final(report).deep_view() == old(report).deep_view().extended(
            strategy,
            gather(groups.len() as nat, group_reference_errors_at(known@, groups.deep_view())),
            Seq::empty(),
        ),
        go_on == strategy.goes_on(
            gather(groups.len() as nat, group_reference_errors_at(known@, groups.deep_view())),
        ),
{
    let ghost before = report.deep_view();
    let ghost errors_at = group_reference_errors_at(known@, groups.deep_view());
    proof {
        let same = before.extended(strategy, Seq::empty(), Seq::empty());
        assert(same.errors =~= before.errors);
        assert(same.warnings =~= before.warnings);
        lemma_gather_nothing(groups.len() as nat);
    }
    let mut i: usize = 0;
    while i < groups.len()
        invariant
            i <= groups.len(),
            before == old(report).deep_view(),
            errors_at == group_reference_errors_at(known@, groups.deep_view()),
            gather(groups.len() as nat, nothing_at()) == Seq::<IssueModel>::empty(),
            report.deep_view() == before.extended(
                strategy,
                gather(i as nat, errors_at),
                gather(i as nat, nothing_at()),
            ),
            strategy.goes_on(gather(i as nat, errors_at)),
        decreases groups.len() - i,
    {
        let go_on = check_group_references(known, &groups[i], strategy, report);
        proof {
            assert(groups.deep_view()[i as int] == groups[i as int].deep_view());
            lemma_gather_step(before, strategy, i as nat, errors_at, nothing_at());
        }
        if !go_on {
            proof {
                lemma_gather_stopped(
                    before,
                    strategy,
                    (i + 1) as nat,
                    groups.len() as nat,
                    errors_at,
                    nothing_at(),
                );
            }
            return false;
        }
        i += 1;
    }
    true
}

/// Checks cross-reference closure over the whole collection under
/// `strategy`: the packages in order, then the groups in order.
pub fn check_references(
    packages: &Vec<Package>,
    groups: &Vec<PackageGroup>,
    strategy: Strategy,
    report: &mut ValidationReport,
) -> (go_on: bool)
    ensures
        final(report).deep_view() == old(report).deep_view().extended(
            strategy,
            reference_errors(packages.deep_view(), groups.deep_view()),
            reference_warnings(packages.deep_view()),
        ),
        go_on == strategy.goes_on(reference_errors(packages.deep_view(), groups.deep_view())),
{
    let ghost before = report.deep_view();
    let known = NameSet::of_packages(packages);
    let ghost package_errors = gather(
        packages.len() as nat,
        package_reference_errors_at(known@, packages.deep_view()),
    );
    let ghost package_warnings = gather(
        packages.len() as nat,
        package_reference_warnings_at(known@, packages.deep_view()),
    );
    let ghost group_errors = gather(
        groups.len() as nat,
        group_reference_errors_at(known@, groups.deep_view()),
    );
    let ghost none = Seq::<IssueModel>::empty();
    proof {
        assert(package_warnings + none =~= package_warnings);
    }
    let go_on = check_all_packages(&known, packages, strategy, report);
    if !go_on {
        proof {
            lemma_extended_stopped(
                before,
                strategy,
                package_errors,
                package_warnings,
                group_errors,
                none,
            );
        }
        return false;
    }
    let go_on = check_all_groups(&known, groups, strategy, report);
    proof {
        lemma_extended_twice(before, strategy, package_errors, package_warnings, group_errors, none);
    }
    go_on
}

/// Checks cross-reference closure and records every finding: a hard error for
/// each dependency and each group member that does not resolve, a warning for
/// each alternative and each related package that does not.
pub fn validate_cross_references(
    packages: &Vec<Package>,
    groups: &Vec<PackageGroup>,
    report: &mut ValidationReport,
)
    ensures
        final(report).deep_view().errors == old(report).deep_view().errors + reference_errors(
            packages.deep_view(),
            groups.deep_view(),
        ),
        final(report).deep_view().warnings == old(report).deep_view().warnings
            + reference_warnings(packages.deep_view()),
{
    check_references(packages, groups, Strategy::CollectAll, report);
}

/// Checks cross-reference closure and stops at the first dependency or group
/// member that does not resolve.
pub fn validate_references(packages: &Vec<Package>, groups: &Vec<PackageGroup>) -> (outcome:
    Result<(), Issue>)
    ensures
        match outcome {
            Ok(_) => reference_errors(packages.deep_view(), groups.deep_view()).len() == 0,
            Err(error) => {
                &&& reference_errors(packages.deep_view(), groups.deep_view()).len() > 0
                &&& error.deep_view() == reference_errors(
                    packages.deep_view(),
                    groups.deep_view(),
                )[0]
            },
        },
{
    let mut report = ValidationReport::new();
    check_references(packages, groups, Strategy::FailFast, &mut report);
    match report.into_first_error() {
        Some(error) => Err(error),
        None => Ok(()),
    }
}

} // verus!
