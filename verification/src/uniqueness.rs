//! Uniqueness of package names, and the platform coverage of each package.

use vstd::prelude::*;
use vstd::hash_map::StringHashMap;
use crate::gather::{gather, lemma_gather_empty};
use crate::issue::{Issue, IssueModel};
use crate::model::{Package, PackageModel, MIN_PLATFORMS};
use crate::report::{
    lemma_extended_by_nothing, lemma_gather_nothing, lemma_gather_step, lemma_gather_stopped,
    lemma_warnings_ignored, nothing_at, Strategy, ValidationReport,
};
use crate::source::{LoadedPackage, LoadedPackageModel};
use crate::text::Text;

verus! {

/// The packages of a loaded collection, without the paths.
pub open spec fn packages_of(entries: Seq<LoadedPackageModel>) -> Seq<PackageModel> {
    Seq::new(entries.len(), |i: int| entries[i].package)
}

/// No two packages of the collection have the same name.
pub open spec fn names_unique(packages: Seq<PackageModel>) -> bool {
    forall|i: int, j: int|
        0 <= i < j < packages.len() ==> (#[trigger] packages[i]).name != (
        #[trigger] packages[j]).name
}

/// Position `i` is the first at which a package called `name` stands.
pub open spec fn is_first_with_name(entries: Seq<LoadedPackageModel>, name: Text, i: int) -> bool {
    &&& 0 <= i < entries.len()
    &&& entries[i].package.name == name
    &&& forall|k: int| 0 <= k < i ==> (#[trigger] entries[k]).package.name != name
}

/// The first position at which a package called `name` stands.
pub open spec fn first_with_name(entries: Seq<LoadedPackageModel>, name: Text) -> int {
    choose|i: int| is_first_with_name(entries, name, i)
}

/// The package at position `j` has the name of a package before it.
pub open spec fn repeats_earlier(entries: Seq<LoadedPackageModel>, j: int) -> bool {
    exists|i: int| 0 <= i < j && (#[trigger] entries[i]).package.name == entries[j].package.name
}

/// The hard error, if any, for the package at position `j`: it is a
/// duplicate when an earlier package has its name, and the error names the
/// file of the first package of that name and the file of this one.
pub open spec fn duplicate_at(entries: Seq<LoadedPackageModel>) -> spec_fn(int) -> Seq<IssueModel> {
    |j: int|
        if repeats_earlier(entries, j) {
            seq![
                IssueModel::DuplicateName {
                    name: entries[j].package.name,
                    first_path: entries[first_with_name(entries, entries[j].package.name)].path,
                    path: entries[j].path,
                },
            ]
        } else {
            Seq::empty()
        }
}

/// One hard error for each package that repeats the name of an earlier one,
/// in collection order.
pub open spec fn duplicate_errors(entries: Seq<LoadedPackageModel>) -> Seq<IssueModel> {
    gather(entries.len(), duplicate_at(entries))
}

/// The warning, if any, for the package at position `i`: it is available on
/// fewer than two platforms, the store identifier counted among them.
pub open spec fn coverage_warning_at(packages: Seq<PackageModel>) -> spec_fn(int) -> Seq<
    IssueModel,
> {
    |i: int|
        if packages[i].platforms.coverage() < MIN_PLATFORMS {
            seq![
                IssueModel::LowPlatformCoverage {
                    package: packages[i].name,
                    platforms: packages[i].platforms.coverage() as u8,
                },
            ]
        } else {
            Seq::empty()
        }
}

/// One warning for each package that is available on fewer than two
/// platforms, in collection order.
pub open spec fn coverage_warnings(packages: Seq<PackageModel>) -> Seq<IssueModel> {
    gather(packages.len(), coverage_warning_at(packages))
}

/// There is one first position for a name at most.
pub proof fn lemma_first_with_name(entries: Seq<LoadedPackageModel>, name: Text, i: int)
    requires
        is_first_with_name(entries, name, i),
    ensures
        first_with_name(entries, name) == i,
{
    let chosen = first_with_name(entries, name);
    assert(is_first_with_name(entries, name, chosen));
    if chosen < i {
        assert(entries[chosen].package.name != name);
    } else if i < chosen {
        assert(entries[i].package.name != name);
    }
}

/// Uniqueness: the duplicate check reports no hard error exactly when no two
/// packages of the collection have the same name.
pub proof fn lemma_duplicates_iff_unique(entries: Seq<LoadedPackageModel>)
    ensures
        duplicate_errors(entries).len() == 0 <==> names_unique(packages_of(entries)),
{
    let packages = packages_of(entries);
    let at = duplicate_at(entries);
    lemma_gather_empty(entries.len(), at);
    if duplicate_errors(entries).len() == 0 {
        assert forall|i: int, j: int| 0 <= i < j < packages.len() implies (
        #[trigger] packages[i]).name != (#[trigger] packages[j]).name by {
            assert(at(j).len() == 0);
            if packages[i].name == packages[j].name {
                assert(entries[i].package.name == entries[j].package.name);
                assert(repeats_earlier(entries, j));
            }
        }
    }
    if names_unique(packages) {
        assert forall|j: int| 0 <= j < entries.len() implies (#[trigger] at(j)).len() == 0 by {
            if repeats_earlier(entries, j) {
                let i = choose|i: int|
                    0 <= i < j && (#[trigger] entries[i]).package.name == entries[j].package.name;
                assert(packages[i].name == packages[j].name);
            }
        }
    }
}

/// Checks the names of the collection under `strategy`.
pub fn inspect_duplicates(
    entries: &Vec<LoadedPackage>,
    strategy: Strategy,
    report: &mut ValidationReport,
) -> (go_on: bool)
    ensures
        final(report).deep_view() == old(report).deep_view().extended(
            strategy,
            duplicate_errors(entries.deep_view()),
            Seq::empty(),
        ),
        go_on == strategy.goes_on(duplicate_errors(entries.deep_view())),
{
    let ghost before = report.deep_view();
    let ghost models = entries.deep_view();
    let ghost errors_at = duplicate_at(models);
    let ghost nothing = nothing_at();
    let mut seen: StringHashMap<usize> = StringHashMap::new();
    proof {
        lemma_extended_by_nothing(before, strategy);
        lemma_gather_nothing(entries.len() as nat);
    }
    let mut j: usize = 0;
    while j < entries.len()
        invariant
            j <= entries.len(),
            before == old(report).deep_view(),
            models == entries.deep_view(),
            errors_at == duplicate_at(models),
            nothing == nothing_at(),
            gather(entries.len() as nat, nothing) == Seq::<IssueModel>::empty(),
            forall|name: Text|
                seen@.contains_key(name) <==> exists|k: int|
                    0 <= k < j && (#[trigger] models[k]).package.name == name,
            forall|name: Text| #[trigger]
                seen@.contains_key(name) ==> is_first_with_name(models, name, seen@[name] as int),
            report.deep_view() == before.extended(
                strategy,
                gather(j as nat, errors_at),
                gather(j as nat, nothing),
            ),
            strategy.goes_on(gather(j as nat, errors_at)),
        decreases entries.len() - j,
    {
        let entry = &entries[j];
        let ghost name = entry.package.name@;
        assert(models[j as int] == entry.deep_view());
        let mut go_on: bool = true;
        match seen.get(entry.package.name.as_str()) {
            Some(first) => {
                let first: usize = *first;
                proof {
                    lemma_first_with_name(models, name, first as int);
                    let k = choose|k: int| 0 <= k < j && (#[trigger] models[k]).package.name == name;
                    assert(repeats_earlier(models, j as int));
                }
                assert(models[first as int] == entries[first as int].deep_view());
                let error = Issue::DuplicateName {
                    name: entry.package.name.clone(),
                    first_path: entries[first].path.clone(),
                    path: entry.path.clone(),
                };
                assert(seq![error.deep_view()] == errors_at(j as int));
                go_on = report.fail(strategy, error);
            },
            None => {
                seen.insert(entry.package.name.clone(), j);
                proof {
                    assert(!repeats_earlier(models, j as int));
                    assert(is_first_with_name(models, name, j as int));
                    lemma_extended_by_nothing(report.deep_view(), strategy);
                }
            },
        }
        proof {
            lemma_gather_step(before, strategy, j as nat, errors_at, nothing);
        }
        if !go_on {
            proof {
                lemma_gather_stopped(
                    before,
                    strategy,
                    (j + 1) as nat,
                    entries.len() as nat,
                    errors_at,
                    nothing,
                );
            }
            return false;
        }
        j += 1;
    }
    true
}

/// Checks that no package repeats the name of an earlier one and records a
/// hard error for each that does.
pub fn check_duplicates(entries: &Vec<LoadedPackage>, report: &mut ValidationReport)
    ensures
        final(report).deep_view().errors == old(report).deep_view().errors + duplicate_errors(
            entries.deep_view(),
        ),
        final(report).deep_view().warnings == old(report).deep_view().warnings,
{
    let ghost before = report.deep_view();
    inspect_duplicates(entries, Strategy::CollectAll, report);
    assert(before.warnings + Seq::<IssueModel>::empty() =~= before.warnings);
}

/// Checks the platform coverage of every package under `strategy`.
pub fn inspect_platform_coverage(
    packages: &Vec<Package>,
    strategy: Strategy,
    report: &mut ValidationReport,
)
    ensures
        final(report).deep_view() == old(report).deep_view().extended(
            strategy,
            Seq::empty(),
            coverage_warnings(packages.deep_view()),
        ),
{
    let ghost before = report.deep_view();
    let ghost warnings_at = coverage_warning_at(packages.deep_view());
    let ghost nothing = nothing_at();
    if !strategy.collects() {
        proof {
            lemma_warnings_ignored(before, coverage_warnings(packages.deep_view()));
        }
        return ;
    }
    proof {
        lemma_extended_by_nothing(before, strategy);
        lemma_gather_nothing(packages.len() as nat);
    }
    let mut i: usize = 0;
    while i < packages.len()
        invariant
            i <= packages.len(),
            warnings_at == coverage_warning_at(packages.deep_view()),
            nothing == nothing_at(),
            gather(packages.len() as nat, nothing) == Seq::<IssueModel>::empty(),
            report.deep_view() == before.extended(
                strategy,
                gather(i as nat, nothing),
                gather(i as nat, warnings_at),
            ),
            strategy.goes_on(gather(i as nat, nothing)),
        decreases packages.len() - i,
    {
        proof {
            lemma_gather_nothing(i as nat);
            lemma_gather_nothing((i + 1) as nat);
        }
        let package = &packages[i];
        assert(packages.deep_view()[i as int] == package.deep_view());
        let count: u8 = package.platforms.coverage();
        if count < MIN_PLATFORMS {
            let warning = Issue::LowPlatformCoverage {
                package: package.name.clone(),
                platforms: count,
            };
            assert(seq![warning.deep_view()] == warnings_at(i as int));
            report.warn(strategy, warning);
        } else {
            proof {
                lemma_extended_by_nothing(report.deep_view(), strategy);
            }
        }
        proof {
            lemma_gather_step(before, strategy, i as nat, nothing, warnings_at);
        }
        i += 1;
    }
}

/// Counts the platforms on which each package is available and records a
/// warning for each package that is available on fewer than two.
pub fn validate_platform_coverage(packages: &Vec<Package>, report: &mut ValidationReport)
    ensures
        final(report).deep_view().errors == old(report).deep_view().errors,
        final(report).deep_view().warnings == old(report).deep_view().warnings
            + coverage_warnings(packages.deep_view()),
{
    let ghost before = report.deep_view();
    inspect_platform_coverage(packages, Strategy::CollectAll, report);
    assert(before.errors + Seq::<IssueModel>::empty() =~= before.errors);
}

/// Gives up the paths of a loaded collection and keeps the packages.
pub fn into_packages(entries: Vec<LoadedPackage>) -> (packages: Vec<Package>)
    ensures
        packages.deep_view() == packages_of(entries.deep_view()),
{
    let mut packages: Vec<Package> = Vec::new();
    for entry in it: entries
        invariant
            it.seq() == entries@,
            packages.len() == it.index(),
            forall|k: int|
                0 <= k < it.index() ==> (#[trigger] packages[k]).deep_view()
                    == entries[k].deep_view().package,
    {
        packages.push(entry.package);
    }
    assert(packages.deep_view() =~= packages_of(entries.deep_view()));
    packages
}

} // verus!
