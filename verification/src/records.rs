//! The checks on single source files: whether the file could be loaded,
//! whether a package file is named after its package, whether the popularity
//! is in range, and whether the tags are well formed.

use vstd::prelude::*;
use vstd::string::*;
use crate::gather::gather;
use crate::issue::{Issue, IssueModel};
use crate::layout::record_extension;
use crate::model::{Package, PackageGroup, PackageGroupModel, PackageModel, MAX_POPULARITY};
use crate::report::{
    lemma_extended_by_nothing, lemma_extended_stopped, lemma_extended_twice,
    lemma_gather_nothing, lemma_gather_step, lemma_gather_stopped, lemma_warnings_ignored,
    nothing_at, Strategy, ValidationReport,
};
use crate::source::{
    schema_violation_at, Loaded, LoadedModel, LoadedPackage, LoadedPackageModel, SourceFile,
    SourceFileModel,
};
use crate::text::{is_valid_tag, is_well_formed_tag, Text};
use crate::uniqueness::{
    duplicate_errors, inspect_duplicates, lemma_duplicates_iff_unique, names_unique, packages_of,
};

verus! {

/// The name that the file of the package called `name` must have.
pub open spec fn expected_file_name(name: Text) -> Text {
    name + record_extension()
}

/// The hard error of a package file that is not named after its package.
pub open spec fn identity_errors(path: Text, file_name: Text, package: PackageModel) -> Seq<
    IssueModel,
> {
    if file_name == expected_file_name(package.name) {
        Seq::empty()
    } else {
        seq![IssueModel::FilenameMismatch { path, file_name, package: package.name }]
    }
}

/// The hard error of a package whose popularity is above the maximum.
pub open spec fn range_errors(path: Text, package: PackageModel) -> Seq<IssueModel> {
    if package.popularity > MAX_POPULARITY {
        seq![IssueModel::PopularityOutOfRange { path, popularity: package.popularity }]
    } else {
        Seq::empty()
    }
}

/// The warning, if any, for the tag at position `i`.
pub open spec fn tag_warning_at(path: Text, tags: Seq<Text>) -> spec_fn(int) -> Seq<IssueModel> {
    |i: int|
        if is_well_formed_tag(tags[i]) {
            Seq::empty()
        } else {
            seq![IssueModel::MalformedTag { path, tag: tags[i] }]
        }
}

/// One warning for each tag that is not well formed, in the order of the
/// tags.
pub open spec fn tag_warnings(path: Text, tags: Seq<Text>) -> Seq<IssueModel> {
    gather(tags.len(), tag_warning_at(path, tags))
}

/// The hard errors of one package file: those of loading it, then, where a
/// package was loaded, the identity error and the range error. A file that
/// is not named after its package is still checked for the rest.
pub open spec fn package_file_errors(file: SourceFileModel<PackageModel>) -> Seq<IssueModel> {
    match file.loaded {
        LoadedModel::Entity(package) => identity_errors(file.path, file.file_name, package)
            + range_errors(file.path, package),
        _ => file.load_errors(),
    }
}

/// The warnings of one package file: those of its tags, where a package was
/// loaded.
pub open spec fn package_file_warnings(file: SourceFileModel<PackageModel>) -> Seq<IssueModel> {
    match file.loaded {
        LoadedModel::Entity(package) => tag_warnings(file.path, package.tags),
        _ => Seq::empty(),
    }
}

/// The package that a file contributes to the collection: the one it holds,
/// if it holds one.
pub open spec fn package_of(file: SourceFileModel<PackageModel>) -> Seq<LoadedPackageModel> {
    match file.loaded {
        LoadedModel::Entity(package) => seq![LoadedPackageModel { path: file.path, package }],
        _ => Seq::empty(),
    }
}

/// The group that a file contributes to the collection.
pub open spec fn group_of(file: SourceFileModel<PackageGroupModel>) -> Seq<PackageGroupModel> {
    match file.loaded {
        LoadedModel::Entity(group) => seq![group],
        _ => Seq::empty(),
    }
}

/// The hard errors of the package file at a position.
pub open spec fn package_file_errors_at(files: Seq<SourceFileModel<PackageModel>>) -> spec_fn(
    int,
) -> Seq<IssueModel> {
    |i: int| package_file_errors(files[i])
}

/// The warnings of the package file at a position.
pub open spec fn package_file_warnings_at(files: Seq<SourceFileModel<PackageModel>>) -> spec_fn(
    int,
) -> Seq<IssueModel> {
    |i: int| package_file_warnings(files[i])
}

/// The package that the file at a position contributes.
pub open spec fn package_of_at(files: Seq<SourceFileModel<PackageModel>>) -> spec_fn(int) -> Seq<
    LoadedPackageModel,
> {
    |i: int| package_of(files[i])
}

/// The hard errors of the group file at a position.
pub open spec fn group_file_errors_at(files: Seq<SourceFileModel<PackageGroupModel>>) -> spec_fn(
    int,
) -> Seq<IssueModel> {
    |i: int| files[i].load_errors()
}

/// The group that the file at a position contributes.
pub open spec fn group_of_at(files: Seq<SourceFileModel<PackageGroupModel>>) -> spec_fn(
    int,
) -> Seq<PackageGroupModel> {
    |i: int| group_of(files[i])
}

/// Every hard error of the package files, file by file in the order given.
pub open spec fn package_files_errors(files: Seq<SourceFileModel<PackageModel>>) -> Seq<
    IssueModel,
> {
    gather(files.len(), package_file_errors_at(files))
}

/// Every warning of the package files, file by file in the order given.
pub open spec fn package_files_warnings(files: Seq<SourceFileModel<PackageModel>>) -> Seq<
    IssueModel,
> {
    gather(files.len(), package_file_warnings_at(files))
}

/// The packages that the files hold, each with the path of its file, in the
/// order of the files.
pub open spec fn loaded_packages(files: Seq<SourceFileModel<PackageModel>>) -> Seq<
    LoadedPackageModel,
> {
    gather(files.len(), package_of_at(files))
}

/// Every hard error of the group files, file by file in the order given.
pub open spec fn group_files_errors(files: Seq<SourceFileModel<PackageGroupModel>>) -> Seq<
    IssueModel,
> {
    gather(files.len(), group_file_errors_at(files))
}

/// The groups that the files hold, in the order of the files.
pub open spec fn loaded_groups(files: Seq<SourceFileModel<PackageGroupModel>>) -> Seq<
    PackageGroupModel,
> {
    gather(files.len(), group_of_at(files))
}

/// Records one hard error for each constraint that a rejected record
/// violates.
fn report_violations(
    path: &String,
    violations: &Vec<String>,
    strategy: Strategy,
    report: &mut ValidationReport,
) -> (go_on: bool)
    ensures
        final(report).deep_view() == old(report).deep_view().extended(
            strategy,
            gather(violations.len() as nat, schema_violation_at(path@, violations.deep_view())),
            Seq::empty(),
        ),
        go_on == strategy.goes_on(
            gather(violations.len() as nat, schema_violation_at(path@, violations.deep_view())),
        ),
{
    let ghost before = report.deep_view();
    let ghost errors_at = schema_violation_at(path@, violations.deep_view());
    let ghost nothing = nothing_at();
    proof {
        lemma_extended_by_nothing(before, strategy);
        lemma_gather_nothing(violations.len() as nat);
    }
    let mut i: usize = 0;
    while i < violations.len()
        invariant
            i <= violations.len(),
            before == old(report).deep_view(),
            errors_at == schema_violation_at(path@, violations.deep_view()),
            nothing == nothing_at(),
            gather(violations.len() as nat, nothing) == Seq::<IssueModel>::empty(),
            report.deep_view() == before.extended(
                strategy,
                gather(i as nat, errors_at),
                gather(i as nat, nothing),
            ),
            strategy.goes_on(gather(i as nat, errors_at)),
        decreases violations.len() - i,
    {
        let error = Issue::SchemaViolation {
            path: path.clone(),
            constraint: violations[i].clone(),
        };
        assert(seq![error.deep_view()] == errors_at(i as int));
        let go_on = report.fail(strategy, error);
        proof {
            lemma_gather_step(before, strategy, i as nat, errors_at, nothing);
        }
        if !go_on {
            proof {
                lemma_gather_stopped(
                    before,
                    strategy,
                    (i + 1) as nat,
                    violations.len() as nat,
                    errors_at,
                    nothing,
                );
            }
            return false;
        }
        i += 1;
    }
    true
}

/// Records the hard errors of a file that gave no entity.
fn report_load_failure<T: DeepView>(
    file: &SourceFile<T>,
    strategy: Strategy,
    report: &mut ValidationReport,
) -> (go_on: bool)
    ensures
        final(report).deep_view() == old(report).deep_view().extended(
            strategy,
            file.deep_view().load_errors(),
            Seq::empty(),
        ),
        go_on == strategy.goes_on(file.deep_view().load_errors()),
{
    match &file.loaded {
        Loaded::Malformed { detail } => {
            let error = Issue::Unparsable { path: file.path.clone(), detail: detail.clone() };
            let go_on = report.fail(strategy, error);
            go_on
        },
        Loaded::Rejected { violations } => {
            if violations.len() == 0 {
                let error = Issue::SchemaViolation {
                    path: file.path.clone(),
                    constraint: String::from_str("rejected without a named constraint"),
                };
                report.fail(strategy, error)
            } else {
                report_violations(&file.path, violations, strategy, report)
            }
        },
        Loaded::Entity(_) => {
            proof {
                lemma_extended_by_nothing(report.deep_view(), strategy);
            }
            true
        },
    }
}

/// Whether `file_name` is the name that the file of the package `name` must
/// have.
pub fn is_named_after(file_name: &String, name: &String) -> (matches: bool)
    ensures
        matches == (file_name@ == expected_file_name(name@)),
{
    proof {
        reveal_strlit(".yaml");
    }
    let mut expected: String = name.clone();
    expected.append(".yaml");
    assert(expected@ =~= expected_file_name(name@));
    *file_name == expected
}

/// Checks the tags of one package.
fn check_tags(path: &String, tags: &Vec<String>, strategy: Strategy, report: &mut ValidationReport)
    ensures
        final(report).deep_view() == old(report).deep_view().extended(
            strategy,
            Seq::empty(),
            tag_warnings(path@, tags.deep_view()),
        ),
{
    let ghost before = report.deep_view();
    let ghost warnings_at = tag_warning_at(path@, tags.deep_view());
    let ghost nothing = nothing_at();
    if !strategy.collects() {
        proof {
            lemma_warnings_ignored(before, tag_warnings(path@, tags.deep_view()));
        }
        return ;
    }
    proof {
        lemma_extended_by_nothing(before, strategy);
        lemma_gather_nothing(tags.len() as nat);
    }
    let mut i: usize = 0;
    while i < tags.len()
        invariant
            i <= tags.len(),
            before == old(report).deep_view(),
            warnings_at == tag_warning_at(path@, tags.deep_view()),
            nothing == nothing_at(),
            gather(tags.len() as nat, nothing) == Seq::<IssueModel>::empty(),
            report.deep_view() == before.extended(
                strategy,
                gather(i as nat, nothing),
                gather(i as nat, warnings_at),
            ),
            strategy.goes_on(gather(i as nat, nothing)),
        decreases tags.len() - i,
    {
        proof {
            lemma_gather_nothing(i as nat);
            lemma_gather_nothing((i + 1) as nat);
        }
        if is_valid_tag(tags[i].as_str()) {
            proof {
                lemma_extended_by_nothing(report.deep_view(), strategy);
            }
        } else {
            let warning = Issue::MalformedTag { path: path.clone(), tag: tags[i].clone() };
            assert(seq![warning.deep_view()] == warnings_at(i as int));
            report.warn(strategy, warning);
        }
        proof {
            assert(nothing(i as int) == Seq::<IssueModel>::empty());
            lemma_gather_step(before, strategy, i as nat, nothing, warnings_at);
        }
        i += 1;
    }
}

/// Checks one package file and, where it holds a package, adds the package
/// to `packages`.
fn check_package_file(
    file: SourceFile<Package>,
    strategy: Strategy,
    report: &mut ValidationReport,
    packages: &mut Vec<LoadedPackage>,
) -> (go_on: bool)
    ensures
        final(report).deep_view() == old(report).deep_view().extended(
            strategy,
            package_file_errors(file.deep_view()),
            package_file_warnings(file.deep_view()),
        ),
        go_on == strategy.goes_on(package_file_errors(file.deep_view())),
        go_on ==> final(packages).deep_view() == old(packages).deep_view() + package_of(
            file.deep_view(),
        ),
{
    let ghost before = report.deep_view();
    let ghost model = file.deep_view();
    let ghost none = Seq::<IssueModel>::empty();
    if !(matches!(file.loaded, Loaded::Entity(_))) {
        let go_on = report_load_failure(&file, strategy, report);
        assert(packages.deep_view() + package_of(model) =~= packages.deep_view());
        return go_on;
    }
    let SourceFile { path, file_name, loaded } = file;
    match loaded {
        Loaded::Entity(package) => {
            let ghost identity = identity_errors(path@, file_name@, package.deep_view());
            let ghost range = range_errors(path@, package.deep_view());
            let ghost tags = tag_warnings(path@, package.deep_view().tags);
            proof {
                lemma_extended_by_nothing(before, strategy);
                assert(none + none =~= none);
                assert(none + tags =~= tags);
            }
            if !is_named_after(&file_name, &package.name) {
                let error = Issue::FilenameMismatch {
                    path: path.clone(),
                    file_name: file_name.clone(),
                    package: package.name.clone(),
                };
                let go_on = report.fail(strategy, error);
                if !go_on {
                    proof {
                        lemma_extended_stopped(before, strategy, identity, none, range, tags);
                    }
                    return false;
                }
            }
            let ghost midway = report.deep_view();
            proof {
                lemma_extended_by_nothing(midway, strategy);
            }
            if package.popularity > MAX_POPULARITY {
                let error = Issue::PopularityOutOfRange {
                    path: path.clone(),
                    popularity: package.popularity,
                };
                let go_on = report.fail(strategy, error);
                if !go_on {
                    proof {
                        lemma_extended_twice(before, strategy, identity, none, range, none);
                        lemma_extended_stopped(
                            before,
                            strategy,
                            identity + range,
                            none,
                            none,
                            tags,
                        );
                        assert((identity + range) + none =~= identity + range);
                    }
                    return false;
                }
            }
            check_tags(&path, &package.tags, strategy, report);
            proof {
                lemma_extended_twice(before, strategy, identity, none, range, none);
                lemma_extended_twice(before, strategy, identity + range, none, none, tags);
                assert((identity + range) + none =~= identity + range);
            }
            let ghost entry = LoadedPackageModel { path: path@, package: package.deep_view() };
            let ghost earlier = packages.deep_view();
            packages.push(LoadedPackage { path, package });
            assert(packages.deep_view() =~= earlier + seq![entry]);
            true
        },
        _ => true,
    }
}

/// Checks one group file and, where it holds a group, adds the group to
/// `groups`.
fn check_group_file(
    file: SourceFile<PackageGroup>,
    strategy: Strategy,
    report: &mut ValidationReport,
    groups: &mut Vec<PackageGroup>,
) -> (go_on: bool)
    ensures
        final(report).deep_view() == old(report).deep_view().extended(
            strategy,
            file.deep_view().load_errors(),
            Seq::empty(),
        ),
        go_on == strategy.goes_on(file.deep_view().load_errors()),
        go_on ==> final(groups).deep_view() == old(groups).deep_view() + group_of(
            file.deep_view(),
        ),
{
    let ghost model = file.deep_view();
    let go_on = report_load_failure(&file, strategy, report);
    match file.loaded {
        Loaded::Entity(group) => {
            let ghost earlier = groups.deep_view();
            let ghost entry = group.deep_view();
            groups.push(group);
            assert(groups.deep_view() =~= earlier + seq![entry]);
        },
        _ => {
            assert(groups.deep_view() + group_of(model) =~= groups.deep_view());
        },
    }
    go_on
}

/// Checks every package file under `strategy`, in the order given, and
/// returns whether the run goes on together with the packages loaded.
pub fn inspect_packages(
    files: Vec<SourceFile<Package>>,
    strategy: Strategy,
    report: &mut ValidationReport,
) -> (outcome: (bool, Vec<LoadedPackage>))
    ensures
        final(report).deep_view() == old(report).deep_view().extended(
            strategy,
            package_files_errors(files.deep_view()),
            package_files_warnings(files.deep_view()),
        ),
        outcome.0 == strategy.goes_on(package_files_errors(files.deep_view())),
        outcome.0 ==> outcome.1.deep_view() == loaded_packages(files.deep_view()),
{
    let ghost before = report.deep_view();
    let ghost errors_at = package_file_errors_at(files.deep_view());
    let ghost warnings_at = package_file_warnings_at(files.deep_view());
    let ghost entries_at = package_of_at(files.deep_view());
    let ghost count = files.len() as nat;
    let mut packages: Vec<LoadedPackage> = Vec::new();
    proof {
        lemma_extended_by_nothing(before, strategy);
        assert(packages.deep_view() =~= gather(0, entries_at));
    }
    for file in it: files
        invariant
            before == old(report).deep_view(),
            errors_at == package_file_errors_at(files.deep_view()),
            warnings_at == package_file_warnings_at(files.deep_view()),
            entries_at == package_of_at(files.deep_view()),
            count == files.len(),
            it.seq() == files@,
            report.deep_view() == before.extended(
                strategy,
                gather(it.index() as nat, errors_at),
                gather(it.index() as nat, warnings_at),
            ),
            strategy.goes_on(gather(it.index() as nat, errors_at)),
            packages.deep_view() == gather(it.index() as nat, entries_at),
    {
        let ghost i = it.index() as nat;
        assert(files.deep_view()[i as int] == file.deep_view());
        let go_on = check_package_file(file, strategy, report, &mut packages);
        proof {
            lemma_gather_step(before, strategy, i, errors_at, warnings_at);
        }
        if !go_on {
            proof {
                lemma_gather_stopped(before, strategy, i + 1, count, errors_at, warnings_at);
            }
            return (false, packages);
        }
    }
    (true, packages)
}

/// Checks every group file under `strategy`, in the order given, and
/// returns whether the run goes on together with the groups loaded.
pub fn inspect_groups(
    files: Vec<SourceFile<PackageGroup>>,
    strategy: Strategy,
    report: &mut ValidationReport,
) -> (outcome: (bool, Vec<PackageGroup>))
    ensures
        final(report).deep_view() == old(report).deep_view().extended(
            strategy,
            group_files_errors(files.deep_view()),
            Seq::empty(),
        ),
        outcome.0 == strategy.goes_on(group_files_errors(files.deep_view())),
        outcome.0 ==> outcome.1.deep_view() == loaded_groups(files.deep_view()),
{
    let ghost before = report.deep_view();
    let ghost errors_at = group_file_errors_at(files.deep_view());
    let ghost nothing = nothing_at();
    let ghost entries_at = group_of_at(files.deep_view());
    let ghost count = files.len() as nat;
    let mut groups: Vec<PackageGroup> = Vec::new();
    proof {
        lemma_extended_by_nothing(before, strategy);
        lemma_gather_nothing(count);
        assert(groups.deep_view() =~= gather(0, entries_at));
    }
    for file in it: files
        invariant
            before == old(report).deep_view(),
            errors_at == group_file_errors_at(files.deep_view()),
            nothing == nothing_at(),
            entries_at == group_of_at(files.deep_view()),
            count == files.len(),
            gather(count, nothing) == Seq::<IssueModel>::empty(),
            it.seq() == files@,
            report.deep_view() == before.extended(
                strategy,
                gather(it.index() as nat, errors_at),
                gather(it.index() as nat, nothing),
            ),
            strategy.goes_on(gather(it.index() as nat, errors_at)),
            groups.deep_view() == gather(it.index() as nat, entries_at),
    {
        let ghost i = it.index() as nat;
        assert(files.deep_view()[i as int] == file.deep_view());
        let go_on = check_group_file(file, strategy, report, &mut groups);
        proof {
            lemma_gather_step(before, strategy, i, errors_at, nothing);
        }
        if !go_on {
            proof {
                lemma_gather_stopped(before, strategy, i + 1, count, errors_at, nothing);
            }
            return (false, groups);
        }
    }
    (true, groups)
}

/// Checks every package file and records every finding: for each file the
/// hard errors of loading, identity and range, and a warning for each tag
/// that is not well formed. Returns the packages that were loaded, each with
/// the path of its file, in the order of the files.
pub fn validate_packages(files: Vec<SourceFile<Package>>, report: &mut ValidationReport) -> (packages:
    Vec<LoadedPackage>)
    ensures
        final(report).deep_view().errors == old(report).deep_view().errors + package_files_errors(
            files.deep_view(),
        ),
        final(report).deep_view().warnings == old(report).deep_view().warnings
            + package_files_warnings(files.deep_view()),
        packages.deep_view() == loaded_packages(files.deep_view()),
{
    let (_, packages) = inspect_packages(files, Strategy::CollectAll, report);
    packages
}

/// Checks every group file and records a hard error for each file that could
/// not be loaded and for each constraint that a rejected record violates.
/// Returns the groups that were loaded, in the order of the files.
pub fn validate_groups(files: Vec<SourceFile<PackageGroup>>, report: &mut ValidationReport) -> (groups:
    Vec<PackageGroup>)
    ensures
        final(report).deep_view().errors == old(report).deep_view().errors + group_files_errors(
            files.deep_view(),
        ),
        final(report).deep_view().warnings == old(report).deep_view().warnings,
        groups.deep_view() == loaded_groups(files.deep_view()),
{
    let ghost before = report.deep_view();
    let (_, groups) = inspect_groups(files, Strategy::CollectAll, report);
    assert(before.warnings + Seq::<IssueModel>::empty() =~= before.warnings);
    groups
}

/// Every hard error of loading a package collection: those of the files,
/// then those of the packages that repeat the name of an earlier one.
pub open spec fn package_loading_errors(files: Seq<SourceFileModel<PackageModel>>) -> Seq<
    IssueModel,
> {
    package_files_errors(files) + duplicate_errors(loaded_packages(files))
}

/// Loads the packages of the files and stops at the first hard error: of
/// loading, identity or range in a file, or, where no file has one, of a
/// name that is declared twice. The collection that is returned has no name
/// twice.
pub fn load_packages(files: Vec<SourceFile<Package>>) -> (outcome: Result<
    Vec<LoadedPackage>,
    Issue,
>)
    ensures
        match outcome {
            Ok(packages) => {
                &&& package_loading_errors(files.deep_view()).len() == 0
                &&& packages.deep_view() == loaded_packages(files.deep_view())
                &&& names_unique(packages_of(packages.deep_view()))
            },
            Err(error) => {
                &&& package_loading_errors(files.deep_view()).len() > 0
                &&& error.deep_view() == package_loading_errors(files.deep_view())[0]
            },
        },
{
    let ghost file_errors = package_files_errors(files.deep_view());
    let ghost file_warnings = package_files_warnings(files.deep_view());
    let ghost repeats = duplicate_errors(loaded_packages(files.deep_view()));
    let ghost none = Seq::<IssueModel>::empty();
    let mut report = ValidationReport::new();
    let ghost before = report.deep_view();
    let (go_on, packages) = inspect_packages(files, Strategy::FailFast, &mut report);
    if go_on {
        inspect_duplicates(&packages, Strategy::FailFast, &mut report);
        proof {
            lemma_extended_twice(
                before,
                Strategy::FailFast,
                file_errors,
                file_warnings,
                repeats,
                none,
            );
            lemma_duplicates_iff_unique(packages.deep_view());
        }
    } else {
        proof {
            lemma_extended_stopped(
                before,
                Strategy::FailFast,
                file_errors,
                file_warnings,
                repeats,
                none,
            );
        }
    }
    match report.into_first_error() {
        Some(error) => Err(error),
        None => Ok(packages),
    }
}

/// Loads the groups of the files and stops at the first file that could not
/// be loaded.
pub fn load_groups(files: Vec<SourceFile<PackageGroup>>) -> (outcome: Result<
    Vec<PackageGroup>,
    Issue,
>)
    ensures
        match outcome {
            Ok(groups) => {
                &&& group_files_errors(files.deep_view()).len() == 0
                &&& groups.deep_view() == loaded_groups(files.deep_view())
            },
            Err(error) => {
                &&& group_files_errors(files.deep_view()).len() > 0
                &&& error.deep_view() == group_files_errors(files.deep_view())[0]
            },
        },
{
    let mut report = ValidationReport::new();
    let (_, groups) = inspect_groups(files, Strategy::FailFast, &mut report);
    match report.into_first_error() {
        Some(error) => Err(error),
        None => Ok(groups),
    }
}

} // verus!
