//! The whole run: the checks on the files, the duplicate check, the
//! cross-reference check and the coverage check, one after the other, under
//! one strategy.

use vstd::prelude::*;
use crate::closure::{lemma_reference_closure, reference_errors, reference_warnings};
use crate::database::{assembled, build_database, popularity_in_range, CompiledDatabase};
use crate::gather::{lemma_gather_contains, lemma_gather_empty};
use crate::issue::{Issue, IssueModel};
use crate::model::{Package, PackageGroup, PackageGroupModel, PackageModel};
use crate::records::{
    group_files_errors, inspect_groups, inspect_packages, loaded_groups, loaded_packages,
    package_file_errors_at, package_files_errors, package_files_warnings, package_of,
    package_of_at, range_errors,
};
use crate::references::check_references;
use crate::report::{
    lemma_extended_stopped, lemma_extended_twice, ReportModel, Strategy, ValidationReport,
};
use crate::source::{SourceFile, SourceFileModel};
use crate::uniqueness::{
    coverage_warnings, duplicate_errors, inspect_duplicates, inspect_platform_coverage,
    into_packages, lemma_duplicates_iff_unique, packages_of,
};

verus! {

/// The package collection that the files give.
pub open spec fn collection(files: Seq<SourceFileModel<PackageModel>>) -> Seq<PackageModel> {
    packages_of(loaded_packages(files))
}

/// Every hard error of a run, in the order of the checks: the package files,
/// the group files, duplicate names, cross-references.
pub open spec fn validation_errors(
    package_files: Seq<SourceFileModel<PackageModel>>,
    group_files: Seq<SourceFileModel<PackageGroupModel>>,
) -> Seq<IssueModel> {
    package_files_errors(package_files) + group_files_errors(group_files) + duplicate_errors(
        loaded_packages(package_files),
    ) + reference_errors(collection(package_files), loaded_groups(group_files))
}

/// Every warning of a run, in the order of the checks: tags,
/// cross-references, platform coverage.
pub open spec fn validation_warnings(
    package_files: Seq<SourceFileModel<PackageModel>>,
    group_files: Seq<SourceFileModel<PackageGroupModel>>,
) -> Seq<IssueModel> {
    package_files_warnings(package_files) + reference_warnings(collection(package_files))
        + coverage_warnings(collection(package_files))
}

/// The report of a run that collects everything.
pub open spec fn validated(
    package_files: Seq<SourceFileModel<PackageModel>>,
    group_files: Seq<SourceFileModel<PackageGroupModel>>,
) -> ReportModel {
    ReportModel {
        errors: validation_errors(package_files, group_files),
        warnings: validation_warnings(package_files, group_files),
    }
}

/// What a run leaves behind: the report and the collections that were
/// loaded.
#[derive(Debug, Clone, PartialEq, Eq)]
pub struct Validation {
    pub report: ValidationReport,
    pub packages: Vec<Package>,
    pub groups: Vec<PackageGroup>,
}

/// Runs every check under `strategy`.
pub fn run(
    package_files: Vec<SourceFile<Package>>,
    group_files: Vec<SourceFile<PackageGroup>>,
    strategy: Strategy,
    report: &mut ValidationReport,
) -> (outcome: (bool, Vec<Package>, Vec<PackageGroup>))
    ensures
        final(report).deep_view() == old(report).deep_view().extended(
            strategy,
            validation_errors(package_files.deep_view(), group_files.deep_view()),
            validation_warnings(package_files.deep_view(), group_files.deep_view()),
        ),
        outcome.0 == strategy.goes_on(
            validation_errors(package_files.deep_view(), group_files.deep_view()),
        ),
        outcome.0 ==> {
            &&& outcome.1.deep_view() == collection(package_files.deep_view())
            &&& outcome.2.deep_view() == loaded_groups(group_files.deep_view())
        },
{
    let ghost before = report.deep_view();
    let ghost none = Seq::<IssueModel>::empty();
    let ghost file_errors = package_files_errors(package_files.deep_view());
    let ghost file_warnings = package_files_warnings(package_files.deep_view());
    let ghost group_errors = group_files_errors(group_files.deep_view());
    let ghost entries = loaded_packages(package_files.deep_view());
    let ghost packages_model = collection(package_files.deep_view());
    let ghost groups_model = loaded_groups(group_files.deep_view());
    let ghost duplicates = duplicate_errors(entries);
    let ghost dangling = reference_errors(packages_model, groups_model);
    let ghost advisory = reference_warnings(packages_model);
    let ghost coverage = coverage_warnings(packages_model);
    proof {
        assert(file_warnings + none =~= file_warnings);
        assert(none + (advisory + coverage) =~= advisory + coverage);
        assert(file_warnings + (advisory + coverage) =~= file_warnings + advisory + coverage);
        assert(file_errors + (group_errors + duplicates + dangling) =~= file_errors + group_errors
            + duplicates + dangling);
        assert(file_errors + group_errors + (duplicates + dangling) =~= file_errors + group_errors
            + duplicates + dangling);
        assert(none + none =~= none);
    }
    let (go_on, loaded) = inspect_packages(package_files, strategy, report);
    if !go_on {
        proof {
            lemma_extended_stopped(
                before,
                strategy,
                file_errors,
                file_warnings,
                group_errors + duplicates + dangling,
                advisory + coverage,
            );
        }
        return (false, Vec::new(), Vec::new());
    }
    let (go_on, groups) = inspect_groups(group_files, strategy, report);
    proof {
        lemma_extended_twice(before, strategy, file_errors, file_warnings, group_errors, none);
    }
    if !go_on {
        proof {
            lemma_extended_stopped(
                before,
                strategy,
                file_errors + group_errors,
                file_warnings,
                duplicates + dangling,
                advisory + coverage,
            );
        }
        return (false, Vec::new(), Vec::new());
    }
    let go_on = inspect_duplicates(&loaded, strategy, report);
    proof {
        lemma_extended_twice(
            before,
            strategy,
            file_errors + group_errors,
            file_warnings,
            duplicates,
            none,
        );
    }
    if !go_on {
        proof {
            lemma_extended_stopped(
                before,
                strategy,
                file_errors + group_errors + duplicates,
                file_warnings,
                dangling,
                advisory + coverage,
            );
        }
        return (false, Vec::new(), Vec::new());
    }
    let packages = into_packages(loaded);
    let go_on = check_references(&packages, &groups, strategy, report);
    proof {
        lemma_extended_twice(
            before,
            strategy,
            file_errors + group_errors + duplicates,
            file_warnings,
            dangling,
            advisory,
        );
    }
    if !go_on {
        proof {
            lemma_extended_stopped(
                before,
                strategy,
                file_errors + group_errors + duplicates + dangling,
                file_warnings + advisory,
                none,
                coverage,
            );
            assert(file_errors + group_errors + duplicates + dangling + none =~= file_errors
                + group_errors + duplicates + dangling);
        }
        return (false, Vec::new(), Vec::new());
    }
    inspect_platform_coverage(&packages, strategy, report);
    proof {
        lemma_extended_twice(
            before,
            strategy,
            file_errors + group_errors + duplicates + dangling,
            file_warnings + advisory,
            none,
            coverage,
        );
        assert(file_errors + group_errors + duplicates + dangling + none =~= file_errors
            + group_errors + duplicates + dangling);
    }
    (true, packages, groups)
}

/// Validates the source files and collects everything: every check runs,
/// whatever the checks before it found. The run has failed exactly when the
/// report holds a hard error.
pub fn validate(
    package_files: Vec<SourceFile<Package>>,
    group_files: Vec<SourceFile<PackageGroup>>,
) -> (outcome: Validation)
    ensures
        outcome.report.deep_view() == validated(
            package_files.deep_view(),
            group_files.deep_view(),
        ),
        outcome.packages.deep_view() == collection(package_files.deep_view()),
        outcome.groups.deep_view() == loaded_groups(group_files.deep_view()),
{
    let mut report = ValidationReport::new();
    let (_, packages, groups) = run(package_files, group_files, Strategy::CollectAll, &mut report);
    proof {
        let found = validated(package_files.deep_view(), group_files.deep_view());
        assert(report.deep_view().errors =~= found.errors);
        assert(report.deep_view().warnings =~= found.warnings);
    }
    Validation { report, packages, groups }
}

/// Package files without hard errors give a collection in which every
/// popularity is in range.
pub proof fn lemma_clean_files_in_range(files: Seq<SourceFileModel<PackageModel>>)
    requires
        package_files_errors(files).len() == 0,
    ensures
        popularity_in_range(collection(files)),
{
    let entries = loaded_packages(files);
    let packages = collection(files);
    lemma_gather_empty(files.len(), package_file_errors_at(files));
    assert forall|k: int| 0 <= k < packages.len() implies (#[trigger] packages[k]).popularity
        <= crate::model::MAX_POPULARITY by {
        let entry = entries[k];
        assert(entries.contains(entry));
        lemma_gather_contains(files.len(), package_of_at(files), entry);
        let i = choose|i: int|
            0 <= i < files.len() && (#[trigger] package_of_at(files)(i)).contains(entry);
        let listed = package_of(files[i]);
        let at = choose|at: int| 0 <= at < listed.len() && listed[at] == entry;
        assert(package_file_errors_at(files)(i).len() == 0);
        assert(range_errors(files[i].path, entry.package).len() == 0);
    }
}

/// Compiles the source files into a database and stops at the first hard
/// error: the error returned is the first that a run which collects
/// everything would report. Warnings do not stand in the way.
pub fn compile(
    package_files: Vec<SourceFile<Package>>,
    group_files: Vec<SourceFile<PackageGroup>>,
    last_updated: String,
) -> (outcome: Result<CompiledDatabase, Issue>)
    ensures
        match outcome {
            Ok(database) => {
                &&& validation_errors(package_files.deep_view(), group_files.deep_view()).len()
                    == 0
                &&& database.wf()
                &&& database.deep_view() == assembled(
                    collection(package_files.deep_view()),
                    loaded_groups(group_files.deep_view()),
                    last_updated@,
                )
            },
            Err(error) => {
                &&& validation_errors(package_files.deep_view(), group_files.deep_view()).len() > 0
                &&& error.deep_view() == validation_errors(
                    package_files.deep_view(),
                    group_files.deep_view(),
                )[0]
            },
        },
{
    let mut report = ValidationReport::new();
    let (_, packages, groups) = run(package_files, group_files, Strategy::FailFast, &mut report);
    match report.into_first_error() {
        Some(error) => Err(error),
        None => {
            proof {
                let files = package_files.deep_view();
                assert(package_files_errors(files).len() == 0);
                assert(duplicate_errors(loaded_packages(files)).len() == 0);
                assert(reference_errors(collection(files), loaded_groups(group_files.deep_view())).len()
                    == 0);
                lemma_clean_files_in_range(files);
                lemma_duplicates_iff_unique(loaded_packages(files));
                lemma_reference_closure(collection(files), loaded_groups(group_files.deep_view()));
            }
            Ok(build_database(packages, groups, last_updated))
        },
    }
}

/// Idempotent validation: the report of a run that collects everything is
/// determined by the source files. Two runs over the same files give equal
/// reports, and equal reports are rendered as the same lines.
pub proof fn lemma_validation_repeatable(
    package_files: Seq<SourceFileModel<PackageModel>>,
    group_files: Seq<SourceFileModel<PackageGroupModel>>,
    first: ReportModel,
    second: ReportModel,
)
    requires
        first == validated(package_files, group_files),
        second == validated(package_files, group_files),
    ensures
        first == second,
        crate::report::rendered(first.errors) == crate::report::rendered(second.errors),
        crate::report::rendered(first.warnings) == crate::report::rendered(second.warnings),
{
}

/// A run fails exactly when it finds a hard error, however many warnings it
/// finds, and a run that stops at the first hard error fails exactly when a
/// run that collects everything does.
pub proof fn lemma_disposition(
    package_files: Seq<SourceFileModel<PackageModel>>,
    group_files: Seq<SourceFileModel<PackageGroupModel>>,
    strategy: Strategy,
)
    ensures
        ReportModel::empty().extended(
            strategy,
            validation_errors(package_files, group_files),
            validation_warnings(package_files, group_files),
        ).has_failed() == validated(package_files, group_files).has_failed(),
        validated(package_files, group_files).has_failed() == (validation_errors(
            package_files,
            group_files,
        ).len() > 0),
{
}

} // verus!
